use crate::config::DispatcherSettings;
use crate::lemmas::{lemma_filter_map_step, lemma_filter_step};
use crate::primitives::{tx_weight, views, Transaction, TransactionView, TxOutView, Txid};
use crate::storage::CoordinatorStorage;
use crate::text::{
    decimal, lemma_precedes_total, lemma_precedes_transitive, precedes, text_precedes, to_decimal,
};
use crate::types::{CoordinatedTx, CoordinatedTxView, TxKind, TxKindView, TxStatus};
use vstd::prelude::*;
use vstd::string::*;

verus! {

/// What the dispatcher needs to know of the coordinator's records.
pub trait DispatcherStorage {
    /// The storage is in order.
    spec fn is_sound(&self) -> bool;

    /// The coordinator tracks this transaction.
    spec fn knows(&self, txid: Txid) -> bool;

    /// True when the coordinator tracks this transaction.
    fn is_tx_known(&self, txid: &Txid) -> (r: bool)
        requires
            self.is_sound(),
        ensures
            r == self.knows(*txid),
    ;
}

impl DispatcherStorage for CoordinatorStorage {
    open spec fn is_sound(&self) -> bool {
        self.wf()
    }

    open spec fn knows(&self, txid: Txid) -> bool {
        self@.is_tracked(txid)
    }

    fn is_tx_known(&self, txid: &Txid) -> (r: bool) {
        CoordinatorStorage::is_tx_known(self, txid)
    }
}

/// Counters for the broadcasts under one label.
#[derive(Debug, Clone, Copy, PartialEq, Eq, Structural)]
pub struct BroadcastEntry {
    /// Number of successful broadcasts (an RBF replacement counts once, so does the tx it replaces).
    pub count: u64,
    pub vbytes: u64,
    pub dust_sats: u64,
}

impl Default for BroadcastEntry {
    fn default() -> (r: Self)
        ensures
            r == no_broadcasts(),
    {
        BroadcastEntry { count: 0, vbytes: 0, dust_sats: 0 }
    }
}

/// Counters for everything that one coordinator broadcasts, protocol transactions and speedups alike.
/// Virtual bytes are counted in place of fees because they do not depend on the fee rate.
#[derive(Debug)]
pub struct BroadcastStats {
    /// One entry for each label, in the order of the labels. A label is `<kind>|<context>`, where kind
    /// is `normal`, `needs_speedup`, `speedup` or `funding`.
    pub by_label: Vec<(String, BroadcastEntry)>,
}

/// The counters before the first broadcast.
pub open spec fn no_broadcasts() -> BroadcastEntry {
    BroadcastEntry { count: 0, vbytes: 0, dust_sats: 0 }
}

/// The labels come in order, each once.
pub open spec fn labels_in_order(entries: Seq<(String, BroadcastEntry)>) -> bool {
    forall|i: int, j: int|
        0 <= i < j < entries.len() ==> precedes((#[trigger] entries[i]).0@, (#[trigger] entries[j]).0@)
}

/// `i` is the place of a label.
pub open spec fn is_place_of(entries: Seq<(String, BroadcastEntry)>, label: Seq<char>, i: int) -> bool {
    0 <= i < entries.len() && entries[i].0@ == label
}

/// The counters by label.
pub open spec fn tally(entries: Seq<(String, BroadcastEntry)>) -> Map<Seq<char>, BroadcastEntry> {
    Map::new(
        |label: Seq<char>| exists|i: int| is_place_of(entries, label, i),
        |label: Seq<char>| entries[choose|i: int| is_place_of(entries, label, i)].1,
    )
}

/// The counters under a label, zero when nothing was counted there.
pub open spec fn counted(tally: Map<Seq<char>, BroadcastEntry>, label: Seq<char>) -> BroadcastEntry {
    if tally.contains_key(label) {
        tally[label]
    } else {
        no_broadcasts()
    }
}

/// Sum of the broadcast counts.
pub open spec fn sum_count(entries: Seq<(String, BroadcastEntry)>) -> int
    decreases entries.len(),
{
    if entries.len() == 0 {
        0
    } else {
        sum_count(entries.drop_last()) + entries.last().1.count
    }
}

/// Sum of the virtual bytes.
pub open spec fn sum_vbytes(entries: Seq<(String, BroadcastEntry)>) -> int
    decreases entries.len(),
{
    if entries.len() == 0 {
        0
    } else {
        sum_vbytes(entries.drop_last()) + entries.last().1.vbytes
    }
}

/// Sum of the dust.
pub open spec fn sum_dust(entries: Seq<(String, BroadcastEntry)>) -> int
    decreases entries.len(),
{
    if entries.len() == 0 {
        0
    } else {
        sum_dust(entries.drop_last()) + entries.last().1.dust_sats
    }
}

/// All the sums of the counters fit in 64 bits.
pub open spec fn sums_fit(entries: Seq<(String, BroadcastEntry)>) -> bool {
    sum_count(entries) <= u64::MAX && sum_vbytes(entries) <= u64::MAX && sum_dust(entries) <= u64::MAX
}

proof fn lemma_sums_of_prefix(entries: Seq<(String, BroadcastEntry)>, i: int)
    requires
        0 <= i <= entries.len(),
    ensures
        0 <= sum_count(entries.take(i)) <= sum_count(entries),
        0 <= sum_vbytes(entries.take(i)) <= sum_vbytes(entries),
        0 <= sum_dust(entries.take(i)) <= sum_dust(entries),
    decreases entries.len(),
{
    if i == entries.len() {
        assert(entries.take(i) =~= entries);
        if i > 0 {
            lemma_sums_of_prefix(entries.drop_last(), i - 1);
            assert(entries.drop_last().take(i - 1) =~= entries.drop_last());
        }
    } else {
        lemma_sums_of_prefix(entries.drop_last(), i);
        assert(entries.drop_last().take(i) =~= entries.take(i));
    }
}

proof fn lemma_sums_of_update(
    entries: Seq<(String, BroadcastEntry)>,
    i: int,
    entry: (String, BroadcastEntry),
)
    requires
        0 <= i < entries.len(),
    ensures
        ({
            let old_entry = entries[i].1;
            let updated = entries.update(i, entry);
            &&& sum_count(updated) == sum_count(entries) - old_entry.count + entry.1.count
            &&& sum_vbytes(updated) == sum_vbytes(entries) - old_entry.vbytes + entry.1.vbytes
            &&& sum_dust(updated) == sum_dust(entries) - old_entry.dust_sats + entry.1.dust_sats
        }),
    decreases entries.len(),
{
    let updated = entries.update(i, entry);
    if i == entries.len() - 1 {
        assert(updated.drop_last() =~= entries.drop_last());
    } else {
        lemma_sums_of_update(entries.drop_last(), i, entry);
        assert(updated.drop_last() =~= entries.drop_last().update(i, entry));
    }
}

proof fn lemma_sums_of_insert(
    entries: Seq<(String, BroadcastEntry)>,
    i: int,
    entry: (String, BroadcastEntry),
)
    requires
        0 <= i <= entries.len(),
    ensures
        ({
            let inserted = entries.insert(i, entry);
            &&& sum_count(inserted) == sum_count(entries) + entry.1.count
            &&& sum_vbytes(inserted) == sum_vbytes(entries) + entry.1.vbytes
            &&& sum_dust(inserted) == sum_dust(entries) + entry.1.dust_sats
        }),
    decreases entries.len(),
{
    let inserted = entries.insert(i, entry);
    if i == entries.len() {
        assert(inserted.drop_last() =~= entries);
    } else {
        lemma_sums_of_insert(entries.drop_last(), i, entry);
        assert(inserted.drop_last() =~= entries.drop_last().insert(i, entry));
    }
}

/// In a list with the labels in order, a label has one place.
proof fn lemma_place_is_unique(entries: Seq<(String, BroadcastEntry)>, label: Seq<char>, i: int)
    requires
        labels_in_order(entries),
        is_place_of(entries, label, i),
    ensures
        tally(entries).contains_key(label),
        tally(entries)[label] == entries[i].1,
{
    let p = choose|p: int| is_place_of(entries, label, p);
    assert(is_place_of(entries, label, p));
    lemma_precedes_total(label, label);
    if p < i {
        assert(precedes(entries[p].0@, entries[i].0@));
    }
    if i < p {
        assert(precedes(entries[i].0@, entries[p].0@));
    }
}

impl BroadcastStats {
    /// The labels come in order, each once.
    pub open spec fn wf(self) -> bool {
        labels_in_order(self.by_label@)
    }

    /// No broadcasts yet.
    pub fn new() -> (r: Self)
        ensures
            r.wf(),
            r.by_label@.len() == 0,
            tally(r.by_label@) == Map::<Seq<char>, BroadcastEntry>::empty(),
    {
        let r = BroadcastStats { by_label: Vec::new() };
        assert(tally(r.by_label@) =~= Map::empty());
        r
    }

    /// Count one broadcast.
    pub fn record(&mut self, label: String, vbytes: u64, dust_sats: u64)
        requires
            old(self).wf(),
            counted(tally(old(self).by_label@), label@).count < u64::MAX,
            counted(tally(old(self).by_label@), label@).vbytes + vbytes <= u64::MAX,
            counted(tally(old(self).by_label@), label@).dust_sats + dust_sats <= u64::MAX,
        ensures
            final(self).wf(),
            ({
                let before = counted(tally(old(self).by_label@), label@);
                tally(final(self).by_label@) == tally(old(self).by_label@).insert(
                    label@,
                    BroadcastEntry {
                        count: (before.count + 1) as u64,
                        vbytes: (before.vbytes + vbytes) as u64,
                        dust_sats: (before.dust_sats + dust_sats) as u64,
                    },
                )
            }),
            sum_count(final(self).by_label@) == sum_count(old(self).by_label@) + 1,
            sum_vbytes(final(self).by_label@) == sum_vbytes(old(self).by_label@) + vbytes,
            sum_dust(final(self).by_label@) == sum_dust(old(self).by_label@) + dust_sats,
    {
        let ghost start = self.by_label@;
        let n: usize = self.by_label.len();
        let mut i: usize = 0;
        while i < n && text_precedes(self.by_label[i].0.as_str(), label.as_str())
            invariant
                *self == *old(self),
                start == self.by_label@,
                n == start.len(),
                i <= n,
                forall|j: int| 0 <= j < i ==> precedes((#[trigger] start[j]).0@, label@),
            decreases n - i,
        {
            i = i + 1;
        }
        if i < n && self.by_label[i].0 == label {
            let entry = self.by_label[i].1;
            proof {
                lemma_place_is_unique(start, label@, i as int);
            }
            let updated = BroadcastEntry {
                count: entry.count + 1,
                vbytes: entry.vbytes + vbytes,
                dust_sats: entry.dust_sats + dust_sats,
            };
            proof {
                lemma_sums_of_update(start, i as int, (label, updated));
                lemma_tally_of_update(start, i as int, (label, updated));
            }
            self.by_label.set(i, (label, updated));
        } else {
            let entry = BroadcastEntry { count: 1, vbytes, dust_sats };
            proof {
                assert forall|j: int| i <= j < n implies precedes(label@, (#[trigger] start[j]).0@) by {
                    lemma_precedes_total(start[i as int].0@, label@);
                    if j > i {
                        lemma_precedes_transitive(label@, start[i as int].0@, start[j].0@);
                    }
                }
                lemma_sums_of_insert(start, i as int, (label, entry));
                lemma_tally_of_insert(start, i as int, (label, entry));
            }
            self.by_label.insert(i, (label, entry));
        }
    }

    /// Sum across every label.
    pub fn totals(&self) -> (r: BroadcastEntry)
        requires
            sums_fit(self.by_label@),
        ensures
            r.count == sum_count(self.by_label@),
            r.vbytes == sum_vbytes(self.by_label@),
            r.dust_sats == sum_dust(self.by_label@),
    {
        let mut total = BroadcastEntry { count: 0, vbytes: 0, dust_sats: 0 };
        let ghost all = self.by_label@;
        for i in 0..self.by_label.len()
            invariant
                all == self.by_label@,
                sums_fit(all),
                total.count == sum_count(all.take(i as int)),
                total.vbytes == sum_vbytes(all.take(i as int)),
                total.dust_sats == sum_dust(all.take(i as int)),
        {
            let entry = self.by_label[i].1;
            proof {
                lemma_sums_of_prefix(all, i + 1);
                assert(all.take(i + 1).drop_last() =~= all.take(i as int));
                assert(all.take(i + 1).last() == all[i as int]);
            }
            total.count = total.count + entry.count;
            total.vbytes = total.vbytes + entry.vbytes;
            total.dust_sats = total.dust_sats + entry.dust_sats;
        }
        assert(all.take(all.len() as int) =~= all);
        total
    }
}

proof fn lemma_tally_of_update(
    entries: Seq<(String, BroadcastEntry)>,
    i: int,
    entry: (String, BroadcastEntry),
)
    requires
        labels_in_order(entries),
        is_place_of(entries, entry.0@, i),
    ensures
        labels_in_order(entries.update(i, entry)),
        tally(entries.update(i, entry)) == tally(entries).insert(entry.0@, entry.1),
{
    let updated = entries.update(i, entry);
    assert forall|a: int, b: int| 0 <= a < b < updated.len() implies precedes(
        (#[trigger] updated[a]).0@,
        (#[trigger] updated[b]).0@,
    ) by {
        assert(precedes(entries[a].0@, entries[b].0@));
    }
    let want = tally(entries).insert(entry.0@, entry.1);
    assert forall|label: Seq<char>| tally(updated).contains_key(label) <==> want.contains_key(label) by {
        if tally(updated).contains_key(label) {
            let p = choose|p: int| is_place_of(updated, label, p);
            assert(is_place_of(entries, label, p));
        }
        if tally(entries).contains_key(label) {
            let p = choose|p: int| is_place_of(entries, label, p);
            assert(is_place_of(updated, label, p));
        }
    }
    assert forall|label: Seq<char>| tally(updated).contains_key(label) implies tally(updated)[label]
        == want[label] by {
        let p = choose|p: int| is_place_of(updated, label, p);
        lemma_place_is_unique(updated, label, p);
        assert(is_place_of(entries, label, p));
        lemma_place_is_unique(entries, label, p);
        assert(is_place_of(updated, entry.0@, i));
        if label == entry.0@ {
            lemma_place_is_unique(updated, label, i);
        }
    }
    assert(tally(updated) =~= want);
}

proof fn lemma_tally_of_insert(
    entries: Seq<(String, BroadcastEntry)>,
    i: int,
    entry: (String, BroadcastEntry),
)
    requires
        labels_in_order(entries),
        0 <= i <= entries.len(),
        forall|j: int| 0 <= j < i ==> precedes((#[trigger] entries[j]).0@, entry.0@),
        forall|j: int| i <= j < entries.len() ==> precedes(entry.0@, (#[trigger] entries[j]).0@),
    ensures
        labels_in_order(entries.insert(i, entry)),
        !tally(entries).contains_key(entry.0@),
        tally(entries.insert(i, entry)) == tally(entries).insert(entry.0@, entry.1),
{
    let inserted = entries.insert(i, entry);
    let n = entries.len() as int;
    assert forall|a: int, b: int| 0 <= a < b < inserted.len() implies precedes(
        (#[trigger] inserted[a]).0@,
        (#[trigger] inserted[b]).0@,
    ) by {
        let x = if a < i { a } else { a - 1 };
        let y = if b < i { b } else { b - 1 };
        if a == i {
            assert(inserted[b] == entries[y]);
        } else if b == i {
            assert(inserted[a] == entries[x]);
        } else {
            assert(inserted[a] == entries[x] && inserted[b] == entries[y]);
            assert(precedes(entries[x].0@, entries[y].0@));
        }
    }
    lemma_precedes_total(entry.0@, entry.0@);
    if tally(entries).contains_key(entry.0@) {
        let p = choose|p: int| is_place_of(entries, entry.0@, p);
        assert(is_place_of(entries, entry.0@, p));
        assert(entries[p].0@ == entry.0@);
    }
    let want = tally(entries).insert(entry.0@, entry.1);
    assert(is_place_of(inserted, entry.0@, i));
    assert forall|label: Seq<char>| tally(inserted).contains_key(label) <==> want.contains_key(label) by {
        if tally(inserted).contains_key(label) {
            let p = choose|p: int| is_place_of(inserted, label, p);
            if p < i {
                assert(is_place_of(entries, label, p));
            } else if p > i {
                assert(is_place_of(entries, label, p - 1));
            }
        }
        if tally(entries).contains_key(label) {
            let p = choose|p: int| is_place_of(entries, label, p);
            if p < i {
                assert(is_place_of(inserted, label, p));
            } else {
                assert(is_place_of(inserted, label, p + 1));
            }
        }
    }
    assert forall|label: Seq<char>| tally(inserted).contains_key(label) implies tally(inserted)[label]
        == want[label] by {
        let p = choose|p: int| is_place_of(inserted, label, p);
        lemma_place_is_unique(inserted, label, p);
        if label == entry.0@ {
            lemma_place_is_unique(inserted, label, i);
        } else if p < i {
            assert(is_place_of(entries, label, p));
            lemma_place_is_unique(entries, label, p);
        } else {
            assert(is_place_of(entries, label, p - 1));
            lemma_place_is_unique(entries, label, p - 1);
        }
    }
    assert(tally(inserted) =~= want);
}

impl Default for BroadcastStats {
    fn default() -> (r: Self)
        ensures
            r.wf(),
            r.by_label@.len() == 0,
    {
        BroadcastStats::new()
    }
}

impl Clone for BroadcastStats {
    fn clone(&self) -> (r: Self)
        ensures
            r.by_label@ == self.by_label@,
    {
        let mut by_label: Vec<(String, BroadcastEntry)> = Vec::new();
        for i in 0..self.by_label.len()
            invariant
                by_label@ == self.by_label@.take(i as int),
        {
            by_label.push((self.by_label[i].0.clone(), self.by_label[i].1));
            assert(by_label@ =~= self.by_label@.take(i + 1));
        }
        assert(by_label@ =~= self.by_label@);
        BroadcastStats { by_label }
    }
}

/// What became of the broadcast of one transaction.
///
/// The node's error text is not interpreted: a failed broadcast is reported as it is, and the engine
/// decides by the state of the node.
#[derive(Debug)]
pub enum DispatchOutcome {
    /// Transaction accepted by the node.
    Success,
    /// The transaction was rejected before it was sent.
    Fatal(String),
    /// The node refused the transaction, with this message.
    DispatchError(String),
    /// The transaction was not sent: one that it spends from has failed.
    ParentFailed,
}

/// What became of a broadcast.
#[verifier::ext_equal]
pub enum DispatchOutcomeView {
    Success,
    Fatal(Seq<char>),
    DispatchError(Seq<char>),
    ParentFailed,
}

impl View for DispatchOutcome {
    type V = DispatchOutcomeView;

    open spec fn view(&self) -> DispatchOutcomeView {
        match *self {
            DispatchOutcome::Success => DispatchOutcomeView::Success,
            DispatchOutcome::Fatal(message) => DispatchOutcomeView::Fatal(message@),
            DispatchOutcome::DispatchError(message) => DispatchOutcomeView::DispatchError(message@),
            DispatchOutcome::ParentFailed => DispatchOutcomeView::ParentFailed,
        }
    }
}

/// The outcomes by txid.
pub open spec fn outcomes(results: Seq<(Txid, DispatchOutcome)>) -> Seq<(Txid, DispatchOutcomeView)> {
    Seq::new(results.len(), |i: int| (results[i].0, results[i].1@))
}

/// The word for a kind in the labels of the statistics.
pub open spec fn stats_kind(kind: TxKindView) -> Seq<char> {
    match kind {
        TxKindView::Normal => "normal"@,
        TxKindView::NeedsSpeedup(_) => "needs_speedup"@,
        TxKindView::Speedup(_) => "speedup"@,
        TxKindView::Funding(_) => "funding"@,
    }
}

/// The label under which a broadcast is counted: the kind and the context, so that the dust of the
/// protocol and that of speedups stay apart.
pub open spec fn label_of(tx: CoordinatedTxView) -> Seq<char> {
    stats_kind(tx.kind) + "|"@ + tx.context
}

/// The sum of the outputs that are worth at most `dust_limit` each.
pub open spec fn dust_of(outputs: Seq<TxOutView>, dust_limit: u64) -> int
    decreases outputs.len(),
{
    if outputs.len() == 0 {
        0
    } else if outputs.last().value <= dust_limit {
        dust_of(outputs.drop_last(), dust_limit) + outputs.last().value
    } else {
        dust_of(outputs.drop_last(), dust_limit)
    }
}

proof fn lemma_dust_of_prefix(outputs: Seq<TxOutView>, dust_limit: u64, i: int)
    requires
        0 <= i <= outputs.len(),
    ensures
        0 <= dust_of(outputs.take(i), dust_limit) <= dust_of(outputs, dust_limit),
    decreases outputs.len(),
{
    if i == outputs.len() {
        assert(outputs.take(i) =~= outputs);
        if i > 0 {
            lemma_dust_of_prefix(outputs.drop_last(), dust_limit, i - 1);
            assert(outputs.drop_last().take(i - 1) =~= outputs.drop_last());
        }
    } else {
        lemma_dust_of_prefix(outputs.drop_last(), dust_limit, i);
        assert(outputs.drop_last().take(i) =~= outputs.take(i));
    }
}

/// The label under which the broadcast of `tx` is counted.
fn stats_label(tx: &CoordinatedTx) -> (r: String)
    ensures
        r@ == label_of(tx@),
{
    let kind = match &tx.kind {
        TxKind::Normal => "normal",
        TxKind::NeedsSpeedup(_) => "needs_speedup",
        TxKind::Speedup(_) => "speedup",
        TxKind::Funding(_) => "funding",
    };
    kind.to_string().concat("|").concat(tx.context.as_str())
}

/// The sats in the outputs of `tx` that are worth at most `dust_limit` each; `None` when the sum does
/// not fit in 64 bits.
fn dust_sats(tx: &CoordinatedTx, dust_limit: u64) -> (r: Option<u64>)
    ensures
        match r {
            Some(sats) => sats == dust_of(tx@.tx.output, dust_limit),
            None => dust_of(tx@.tx.output, dust_limit) > u64::MAX,
        },
{
    let ghost all = tx@.tx.output;
    let mut sum: u64 = 0;
    for i in 0..tx.tx.output.len()
        invariant
            all == tx@.tx.output,
            sum == dust_of(all.take(i as int), dust_limit),
    {
        let value: u64 = tx.tx.output[i].value;
        proof {
            lemma_dust_of_prefix(all, dust_limit, i + 1);
            assert(all.take(i + 1).drop_last() =~= all.take(i as int));
            assert(all.take(i + 1).last() == tx.tx.output@[i as int]@);
        }
        if value <= dust_limit {
            sum =
            match sum.checked_add(value) {
                Some(total) => total,
                None => return None,
            };
        }
    }
    assert(all.take(all.len() as int) =~= all);
    Some(sum)
}

/// The broadcast can never succeed, for a reason that the transaction itself shows.
pub open spec fn rejection_of(tx: CoordinatedTxView, max_weight: u64) -> Option<Seq<char>> {
    if tx.tx.input.len() == 0 {
        Some("transaction has no inputs"@)
    } else if tx_weight(tx.tx) > max_weight {
        Some(
            "transaction weight "@ + decimal(tx_weight(tx.tx) as nat) + " wu exceeds max "@ + decimal(
                max_weight as nat,
            ) + " wu"@,
        )
    } else {
        None
    }
}

/// Holds of the transactions that can be sent.
pub open spec fn is_sendable(max_weight: u64) -> spec_fn(CoordinatedTxView) -> bool {
    |tx: CoordinatedTxView| rejection_of(tx, max_weight) is None
}

/// The outcome of a transaction that is not even sent.
pub open spec fn rejected(max_weight: u64) -> spec_fn(CoordinatedTxView) -> Option<
    (Txid, DispatchOutcomeView),
> {
    |tx: CoordinatedTxView|
        match rejection_of(tx, max_weight) {
            Some(message) => Some((tx.txid, DispatchOutcomeView::Fatal(message))),
            None => None,
        }
}

/// Total weight of a batch.
pub open spec fn batch_weight(batch: Seq<CoordinatedTxView>) -> int
    decreases batch.len(),
{
    if batch.len() == 0 {
        0
    } else {
        batch_weight(batch.drop_last()) + tx_weight(batch.last().tx)
    }
}

/// The batches one after the other.
pub open spec fn joined(batches: Seq<Seq<CoordinatedTxView>>) -> Seq<CoordinatedTxView>
    decreases batches.len(),
{
    if batches.len() == 0 {
        Seq::empty()
    } else {
        joined(batches.drop_last()) + batches.last()
    }
}

/// The batch has no room for one more transaction.
pub open spec fn is_full_for(batch: Seq<CoordinatedTxView>, next: CoordinatedTxView, max_weight: u64) -> bool {
    batch_weight(batch) + tx_weight(next.tx) > max_weight
}

/// `batches` splits the front of `parents` greedily: no batch is empty, one of several transactions
/// stays within `max_weight`, each takes as many as it has room for, and there are as many batches as
/// needed but at most `max_batches`.
pub open spec fn splits_greedily(
    batches: Seq<Seq<CoordinatedTxView>>,
    parents: Seq<CoordinatedTxView>,
    max_weight: u64,
    max_batches: u32,
) -> bool {
    let n = joined(batches).len();
    &&& batches.len() <= max_batches
    &&& n <= parents.len()
    &&& joined(batches) == parents.take(n as int)
    &&& forall|i: int| 0 <= i < batches.len() ==> (#[trigger] batches[i]).len() > 0
    &&& forall|i: int|
        0 <= i < batches.len() ==> ((#[trigger] batches[i]).len() > 1 ==> batch_weight(batches[i])
            <= max_weight)
    &&& forall|i: int, j: int|
        0 <= i && j == i + 1 && j < batches.len() ==> is_full_for(
            #[trigger] batches[i],
            (#[trigger] batches[j])[0],
            max_weight,
        )
    &&& n < parents.len() ==> batches.len() == max_batches && (max_batches > 0 ==> is_full_for(
        batches.last(),
        parents[n as int],
        max_weight,
    ))
}

/// The records of a batch of references.
pub open spec fn batch_views(batch: Seq<&CoordinatedTx>) -> Seq<CoordinatedTxView> {
    Seq::new(batch.len(), |i: int| batch[i]@)
}

/// The records of several batches.
pub open spec fn all_batch_views(batches: Seq<Vec<&CoordinatedTx>>) -> Seq<Seq<CoordinatedTxView>> {
    Seq::new(batches.len(), |i: int| batch_views(batches[i]@))
}

/// The transaction is in the mempool or on chain.
pub open spec fn is_reachable(status: TxStatus) -> bool {
    status.in_mempool || status.confirmed || status.finalized
}

/// Every transaction with one of these statuses is in the mempool or on chain.
pub open spec fn all_reachable(statuses: Seq<TxStatus>) -> bool {
    forall|i: int| 0 <= i < statuses.len() ==> is_reachable(#[trigger] statuses[i])
}

/// Holds of the transactions that the coordinator tracks.
pub open spec fn known_by<S: DispatcherStorage>(storage: S) -> spec_fn(Txid) -> bool {
    |id: Txid| storage.knows(id)
}

/// The transactions that `tx` spends from, in input order.
pub open spec fn parent_txids(tx: TransactionView) -> Seq<Txid> {
    Seq::new(tx.input.len(), |i: int| tx.input[i].previous_output.txid)
}

/// The broadcast of one batch: the transactions to send, the place of the next one and the outcomes so
/// far.
#[derive(Debug)]
pub struct DispatchRun {
    pub queue: Vec<CoordinatedTx>,
    pub next: usize,
    pub results: Vec<(Txid, DispatchOutcome)>,
}

impl DispatchRun {
    /// Nothing is left to send.
    pub open spec fn done(self) -> bool {
        self.next >= self.queue@.len()
    }

    /// True when nothing is left to send.
    pub fn is_done(&self) -> (r: bool)
        ensures
            r == self.done(),
    {
        self.next >= self.queue.len()
    }
}

/// Checks, batches and counts the transactions that the coordinator broadcasts.
#[derive(Debug)]
pub struct Dispatcher {
    pub settings: DispatcherSettings,
    pub stats: BroadcastStats,
}

impl Dispatcher {
    /// The statistics are in order and can be summed up.
    pub open spec fn wf(self) -> bool {
        self.stats.wf() && sums_fit(self.stats.by_label@)
    }

    pub fn new(settings: DispatcherSettings) -> (r: Self)
        ensures
            r.wf(),
            r.settings == settings,
            r.stats.by_label@.len() == 0,
    {
        Dispatcher { settings, stats: BroadcastStats::new() }
    }

    /// Everything that this dispatcher has broadcast so far, per label.
    pub fn broadcast_stats(&self) -> (r: BroadcastStats)
        ensures
            r.by_label@ == self.stats.by_label@,
    {
        self.stats.clone()
    }

    /// Groups `parents` into batches whose weight stays within `max_tx_weight`, at most `max_batches` of
    /// them.
    pub fn batch_by_weight<'a>(&self, parents: &'a [CoordinatedTx], max_batches: u32) -> (r: Vec<
        Vec<&'a CoordinatedTx>,
    >)
        ensures
            splits_greedily(
                all_batch_views(r@),
                views(parents@),
                self.settings.max_tx_weight,
                max_batches,
            ),
    {
        let ghost all = views(parents@);
        let ghost max = self.settings.max_tx_weight;
        let mut batches: Vec<Vec<&'a CoordinatedTx>> = Vec::new();
        let mut current: Vec<&'a CoordinatedTx> = Vec::new();
        let mut weight: u128 = 0;
        let n: usize = parents.len();
        let mut i: usize = 0;
        assert(joined(all_batch_views(batches@)) + batch_views(current@) =~= all.take(0));
        while i < n && (batches.len() as u64) < max_batches as u64
            invariant
                n == parents@.len(),
                i <= n,
                all == views(parents@),
                max == self.settings.max_tx_weight,
                batches@.len() <= max_batches,
                joined(all_batch_views(batches@)) + batch_views(current@) == all.take(i as int),
                i > 0 ==> current@.len() > 0,
                i == 0 ==> batches@.len() == 0 && current@.len() == 0,
                weight == batch_weight(batch_views(current@)),
                weight <= u64::MAX,
                current@.len() > 1 ==> weight <= max,
                forall|k: int|
                    0 <= k < batches@.len() ==> (#[trigger] all_batch_views(batches@)[k]).len() > 0,
                forall|k: int|
                    0 <= k < batches@.len() ==> ((#[trigger] all_batch_views(batches@)[k]).len() > 1
                        ==> batch_weight(all_batch_views(batches@)[k]) <= max),
                forall|k: int, m: int|
                    0 <= k && m == k + 1 && m < batches@.len() ==> is_full_for(
                        #[trigger] all_batch_views(batches@)[k],
                        (#[trigger] all_batch_views(batches@)[m])[0],
                        max,
                    ),
                batches@.len() > 0 ==> is_full_for(
                    all_batch_views(batches@).last(),
                    batch_views(current@)[0],
                    max,
                ),
            decreases n - i,
        {
            let parent = &parents[i];
            let parent_weight: u64 = parent.tx.weight();
            let ghost before = all_batch_views(batches@);
            let ghost held = batch_views(current@);
            assert(all.take(i + 1) =~= all.take(i as int).push(parent@));
            if current.len() > 0 && weight + parent_weight as u128 > self.settings.max_tx_weight as u128 {
                batches.push(current);
                current = Vec::new();
                weight = 0;
                proof {
                    let after = all_batch_views(batches@);
                    assert(after =~= before.push(held));
                    assert(after.drop_last() =~= before);
                    assert(batch_views(current@) =~= Seq::empty());
                    assert(joined(after) =~= all.take(i as int));
                    assert(is_full_for(held, parent@, max));
                    assert forall|k: int, m: int|
                        0 <= k && m == k + 1 && m < batches@.len() implies is_full_for(
                        #[trigger] after[k],
                        (#[trigger] after[m])[0],
                        max,
                    ) by {
                        if m < before.len() {
                            assert(is_full_for(before[k], before[m][0], max));
                        } else {
                            assert(after[m] == held);
                            assert(after[k] == before.last());
                        }
                    }
                }
            }
            let ghost mid = batch_views(current@);
            current.push(parent);
            weight = weight + parent_weight as u128;
            proof {
                let now = batch_views(current@);
                assert(now =~= mid.push(parent@));
                assert(now.drop_last() =~= mid);
                assert(now.last() == parent@);
                assert(weight == batch_weight(mid) + tx_weight(parent@.tx));
                assert(joined(all_batch_views(batches@)) + now =~= all.take(i + 1));
            }
            i = i + 1;
        }
        let ghost before = all_batch_views(batches@);
        let ghost held = batch_views(current@);
        if current.len() > 0 && (batches.len() as u64) < max_batches as u64 {
            batches.push(current);
            proof {
                let after = all_batch_views(batches@);
                assert(after =~= before.push(held));
                assert(after.drop_last() =~= before);
                assert(joined(after) =~= all.take(i as int));
                assert forall|k: int, m: int|
                    0 <= k && m == k + 1 && m < batches@.len() implies is_full_for(
                    #[trigger] after[k],
                    (#[trigger] after[m])[0],
                    max,
                ) by {
                    if m < before.len() {
                        assert(is_full_for(before[k], before[m][0], max));
                    } else {
                        assert(after[m] == held);
                        assert(after[k] == before.last());
                    }
                }
            }
        } else {
            proof {
                let k = joined(before).len() as int;
                assert(joined(before) =~= all.take(k)) by {
                    assert((joined(before) + held).take(k) =~= joined(before));
                    assert(all.take(i as int).take(k) =~= all.take(k));
                }
                if k < all.len() && max_batches > 0 {
                    assert(held.len() > 0);
                    assert((joined(before) + held)[k] == held[0]);
                    assert(all.take(i as int)[k] == all[k]);
                }
            }
        }
        batches
    }

    /// Parts the transactions that can be sent from those that can never be valid: too heavy, or without
    /// inputs. The latter get a `Fatal` outcome.
    pub fn validate(&self, txs: Vec<CoordinatedTx>) -> (r: (
        Vec<CoordinatedTx>,
        Vec<(Txid, DispatchOutcome)>,
    ))
        ensures
            views(r.0@) == views(txs@).filter(is_sendable(self.settings.max_tx_weight)),
            outcomes(r.1@) == views(txs@).filter_map(rejected(self.settings.max_tx_weight)),
    {
        let ghost all = views(txs@);
        let ghost sendable = is_sendable(self.settings.max_tx_weight);
        let ghost reject = rejected(self.settings.max_tx_weight);
        let mut valid: Vec<CoordinatedTx> = Vec::new();
        let mut failures: Vec<(Txid, DispatchOutcome)> = Vec::new();
        proof {
            reveal(Seq::filter);
            assert(views(valid@) =~= all.take(0).filter(sendable));
            assert(outcomes(failures@) =~= all.take(0).filter_map(reject));
        }
        for i in 0..txs.len()
            invariant
                all == views(txs@),
                sendable == is_sendable(self.settings.max_tx_weight),
                reject == rejected(self.settings.max_tx_weight),
                views(valid@) == all.take(i as int).filter(sendable),
                outcomes(failures@) == all.take(i as int).filter_map(reject),
        {
            proof {
                lemma_filter_step(all, sendable, i as int);
                lemma_filter_map_step(all, reject, i as int);
                assert(all[i as int] == txs@[i as int]@);
            }
            let tx = &txs[i];
            let ghost failed_before = outcomes(failures@);
            if tx.tx.input.len() == 0 {
                let message = "transaction has no inputs".to_string();
                let ghost added = (tx.txid, DispatchOutcomeView::Fatal(message@));
                failures.push((tx.txid, DispatchOutcome::Fatal(message)));
                assert(outcomes(failures@) =~= failed_before.push(added));
            } else if tx.tx.weight() > self.settings.max_tx_weight {
                let message = "transaction weight ".to_string().concat(
                    to_decimal(tx.tx.weight()).as_str(),
                ).concat(" wu exceeds max ").concat(
                    to_decimal(self.settings.max_tx_weight).as_str(),
                ).concat(" wu");
                let ghost added = (tx.txid, DispatchOutcomeView::Fatal(message@));
                failures.push((tx.txid, DispatchOutcome::Fatal(message)));
                assert(outcomes(failures@) =~= failed_before.push(added));
            } else {
                let ghost valid_before = views(valid@);
                valid.push(tx.clone());
                assert(views(valid@) =~= valid_before.push(all[i as int]));
            }
        }
        assert(all.take(all.len() as int) =~= all);
        (valid, failures)
    }

    /// Starts the broadcast of `txs`. Those that can never be valid have their outcome at once; the
    /// others are sent one after the other, see `tracked_parents`, `gate` and `sent`.
    pub fn dispatch(&self, txs: Vec<CoordinatedTx>) -> (r: DispatchRun)
        ensures
            r.next == 0,
            views(r.queue@) == views(txs@).filter(is_sendable(self.settings.max_tx_weight)),
            outcomes(r.results@) == views(txs@).filter_map(rejected(self.settings.max_tx_weight)),
    {
        let (queue, results) = self.validate(txs);
        DispatchRun { queue, next: 0, results }
    }

    /// The parents of `tx` that the coordinator tracks, in input order. The status of each is needed to
    /// decide whether `tx` can be sent; the others come from outside and are assumed to be on chain.
    pub fn tracked_parents<S: DispatcherStorage>(&self, tx: &CoordinatedTx, storage: &S) -> (r: Vec<Txid>)
        requires
            storage.is_sound(),
        ensures
            r@ == parent_txids(tx@.tx).filter(known_by(*storage)),
    {
        let ghost ids = parent_txids(tx@.tx);
        let ghost known = known_by(*storage);
        let mut known_parents: Vec<Txid> = Vec::new();
        proof {
            reveal(Seq::filter);
            assert(known_parents@ =~= ids.take(0).filter(known));
        }
        for i in 0..tx.tx.input.len()
            invariant
                storage.is_sound(),
                ids == parent_txids(tx@.tx),
                known == known_by(*storage),
                known_parents@ == ids.take(i as int).filter(known),
        {
            proof {
                lemma_filter_step(ids, known, i as int);
            }
            let parent = tx.tx.input[i].previous_output.txid;
            assert(ids[i as int] == parent);
            if storage.is_tx_known(&parent) {
                known_parents.push(parent);
            }
        }
        assert(ids.take(ids.len() as int) =~= ids);
        known_parents
    }

    /// True when every parent with one of these statuses is in the mempool or on chain.
    pub fn parents_ready(&self, statuses: &[TxStatus]) -> (r: bool)
        ensures
            r == all_reachable(statuses@),
    {
        for i in 0..statuses.len()
            invariant
                forall|j: int| 0 <= j < i ==> is_reachable(#[trigger] statuses@[j]),
        {
            let status = statuses[i];
            if !(status.in_mempool || status.confirmed || status.finalized) {
                assert(!is_reachable(statuses@[i as int]));
                return false;
            }
        }
        true
    }

    /// Decides on the next transaction of a run by the statuses of its tracked parents. Returns it when
    /// it is to be sent now, and otherwise passes over it: it is tried again at the next dispatch.
    pub fn gate(&self, run: &mut DispatchRun, statuses: &[TxStatus]) -> (r: Option<Transaction>)
        requires
            !old(run).done(),
        ensures
            final(run).queue == old(run).queue,
            final(run).results == old(run).results,
            match r {
                Some(tx) => all_reachable(statuses@) && tx@ == old(run).queue@[old(run).next as int]@.tx
                    && final(run).next == old(run).next,
                None => !all_reachable(statuses@) && final(run).next == old(run).next + 1,
            },
    {
        if self.parents_ready(statuses) {
            Some(run.queue[run.next].tx.clone())
        } else {
            let n: usize = run.queue.len();
            assert(run.next < n);
            run.next = run.next + 1;
            None
        }
    }

    /// Counts the broadcast of `tx`. Returns whether there was room: nothing is counted where a sum of
    /// the statistics would not fit in 64 bits.
    pub fn count_broadcast(&mut self, tx: &CoordinatedTx, dust_limit: u64) -> (r: bool)
        requires
            old(self).wf(),
        ensures
            final(self).wf(),
            final(self).settings == old(self).settings,
            r == has_room_for(old(self).stats.by_label@, tx@, dust_limit),
            r ==> tally(final(self).stats.by_label@) == with_broadcast(
                tally(old(self).stats.by_label@),
                tx@,
                dust_limit,
            ),
            !r ==> final(self).stats == old(self).stats,
    {
        proof {
            lemma_sums_of_prefix(self.stats.by_label@, 0);
        }
        let dust: u64 = match dust_sats(tx, dust_limit) {
            Some(dust) => dust,
            None => return false,
        };
        let vbytes: u64 = tx.tx.vsize();
        let total = self.stats.totals();
        if total.count == u64::MAX || total.vbytes > u64::MAX - vbytes || total.dust_sats > u64::MAX
            - dust {
            return false;
        }
        let label = stats_label(tx);
        proof {
            lemma_counted_within_sums(self.stats.by_label@, label@);
        }
        self.stats.record(label, vbytes, dust);
        true
    }

    /// Takes in the node's reply for the next transaction of a run. An accepted one is counted.
    pub fn sent(&mut self, run: &mut DispatchRun, reply: Result<(), String>, dust_limit: u64)
        requires
            old(self).wf(),
            !old(run).done(),
        ensures
            final(self).wf(),
            final(self).settings == old(self).settings,
            final(run).queue == old(run).queue,
            final(run).next == old(run).next + 1,
            outcomes(final(run).results@) == outcomes(old(run).results@).push(
                (
                    old(run).queue@[old(run).next as int].txid,
                    match reply {
                        Ok(_) => DispatchOutcomeView::Success,
                        Err(message) => DispatchOutcomeView::DispatchError(message@),
                    },
                ),
            ),
            ({
                let tx = old(run).queue@[old(run).next as int]@;
                if reply is Ok && has_room_for(old(self).stats.by_label@, tx, dust_limit) {
                    tally(final(self).stats.by_label@) == with_broadcast(
                        tally(old(self).stats.by_label@),
                        tx,
                        dust_limit,
                    )
                } else {
                    final(self).stats == old(self).stats
                }
            }),
    {
        let n: usize = run.queue.len();
        let at: usize = run.next;
        assert(at < n);
        let txid = run.queue[at].txid;
        let outcome = match reply {
            Ok(_) => {
                let _ = self.count_broadcast(&run.queue[at], dust_limit);
                DispatchOutcome::Success
            },
            Err(message) => DispatchOutcome::DispatchError(message),
        };
        let ghost before = outcomes(run.results@);
        let ghost added = (txid, outcome@);
        run.results.push((txid, outcome));
        assert(outcomes(run.results@) =~= before.push(added));
        run.next = at + 1;
    }
}

/// The broadcast of `tx` can be counted: every sum of the statistics still fits in 64 bits.
pub open spec fn has_room_for(
    entries: Seq<(String, BroadcastEntry)>,
    tx: CoordinatedTxView,
    dust_limit: u64,
) -> bool {
    &&& sum_count(entries) < u64::MAX
    &&& sum_vbytes(entries) + tx.tx.vsize() <= u64::MAX
    &&& sum_dust(entries) + dust_of(tx.tx.output, dust_limit) <= u64::MAX
}

/// The counters after one more broadcast.
pub open spec fn with_broadcast(
    tally: Map<Seq<char>, BroadcastEntry>,
    tx: CoordinatedTxView,
    dust_limit: u64,
) -> Map<Seq<char>, BroadcastEntry> {
    let before = counted(tally, label_of(tx));
    tally.insert(
        label_of(tx),
        BroadcastEntry {
            count: (before.count + 1) as u64,
            vbytes: (before.vbytes + tx.tx.vsize()) as u64,
            dust_sats: (before.dust_sats + dust_of(tx.tx.output, dust_limit)) as u64,
        },
    )
}

/// The counters of one label are part of the sums.
proof fn lemma_counted_within_sums(entries: Seq<(String, BroadcastEntry)>, label: Seq<char>)
    ensures
        counted(tally(entries), label).count <= sum_count(entries),
        counted(tally(entries), label).vbytes <= sum_vbytes(entries),
        counted(tally(entries), label).dust_sats <= sum_dust(entries),
{
    lemma_sums_of_prefix(entries, 0);
    if tally(entries).contains_key(label) {
        let i = choose|i: int| is_place_of(entries, label, i);
        assert(is_place_of(entries, label, i));
        lemma_sums_of_prefix(entries, i);
        lemma_sums_of_prefix(entries, i + 1);
        assert(entries.take(i + 1).drop_last() =~= entries.take(i));
        assert(entries.take(i + 1).last() == entries[i]);
    }
}

} // verus!
