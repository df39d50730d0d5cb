use crate::boost_laws::lemma_last_is_found;
use crate::funding::{is_free_tip, is_spare, is_unclaimed, next_funding, release};
use crate::lemmas::{
    lemma_filter_map_members, lemma_filter_map_step, lemma_find_first_sound, lemma_find_last_sound,
    lemma_record_txids_members,
};
use crate::model::{
    entry_record, find_first, find_last, funding_record, has_output, is_output, listed_once,
    record_txids, with_spent, StoreView,
};
use crate::primitives::Txid;
use crate::types::{
    CoordinatedTxView, FundingData, FundingEntry, SpeedupContextView, SpeedupKindView, TxKindView, Utxo,
};
use vstd::prelude::*;

verus! {

// The change of speedups

/// The context of a speedup of either kind.
pub open spec fn context_of(tx: CoordinatedTxView) -> SpeedupContextView {
    match tx.kind->Speedup_0 {
        SpeedupKindView::CPFP { context, .. } => context,
        SpeedupKindView::RBF { context, .. } => context,
    }
}

/// The listed transaction `i` is a speedup, CPFP or RBF, that is in the mempool, on chain or final, that
/// nothing replaces, and whose change is not claimed.
pub open spec fn is_free_at(all: Seq<CoordinatedTxView>, i: int) -> bool {
    &&& 0 <= i < all.len()
    &&& all[i].state is InMempool || all[i].state is Confirmed || all[i].state is Finalized
    &&& all[i].kind matches TxKindView::Speedup(kind) && match kind {
        SpeedupKindView::CPFP { context, .. } => context.replaced_by is None && !context.spent,
        SpeedupKindView::RBF { context, .. } => context.replaced_by is None && !context.spent,
    }
    &&& forall|j: int|
        0 <= j < all.len() ==> (#[trigger] all[j]).state is Failed || !(
        all[j].kind matches TxKindView::Speedup(SpeedupKindView::RBF { replaces, .. }) && replaces
            == all[i].txid)
}

proof fn lemma_free_at(all: Seq<CoordinatedTxView>, i: int)
    requires
        0 <= i < all.len(),
        all[i].kind is Speedup,
    ensures
        is_free_tip(all)(all[i]) <==> is_free_at(all, i),
{
    if all[i].has_live_replacement(all) && is_free_at(all, i) {
        let j = choose|j: int|
            0 <= j < all.len() && !((#[trigger] all[j]).state is Failed) && all[j].is_rbf_of(all[i].txid);
        assert(all[j].state is Failed || !all[j].is_rbf_of(all[i].txid));
    }
    if is_free_tip(all)(all[i]) {
        assert forall|j: int| 0 <= j < all.len() implies (#[trigger] all[j]).state is Failed || !(
        all[j].kind matches TxKindView::Speedup(SpeedupKindView::RBF { replaces, .. }) && replaces
            == all[i].txid) by {
            if !(all[j].state is Failed) && all[j].is_rbf_of(all[i].txid) {
                assert(all[i].has_live_replacement(all));
            }
        }
    }
}

/// The change of the last free speedup funds the next one, whether it is a CPFP or an RBF and whatever
/// the queue holds: its last output, under the key of its first input.
pub proof fn law_free_change_is_offered(all: Seq<CoordinatedTxView>, store: StoreView, i: int)
    requires
        forall|j: int| 0 <= j < all.len() ==> (#[trigger] all[j]).kind is Speedup,
        is_free_at(all, i),
        forall|j: int| i < j < all.len() ==> !#[trigger] is_free_at(all, j),
        all[i].tx.output.len() > 0,
        context_of(all[i]).funding_inputs.len() > 0,
    ensures
        next_funding(all, store) == Ok::<Option<(CoordinatedTxView, Utxo)>, Seq<char>>(
            Some(
                (
                    all[i],
                    Utxo {
                        txid: all[i].txid,
                        vout: (all[i].tx.output.len() - 1) as u32,
                        amount: all[i].tx.output[all[i].tx.output.len() - 1].value,
                        pub_key: context_of(all[i]).funding_inputs[0].pub_key,
                    },
                ),
            ),
        ),
{
    lemma_free_at(all, i);
    assert forall|j: int| i < j < all.len() implies !is_free_tip(all)(#[trigger] all[j]) by {
        lemma_free_at(all, j);
        assert(!is_free_at(all, j));
    }
    lemma_last_is_found(all, is_free_tip(all), i);
}

/// Both kinds of speedup keep their context in the same way.
pub proof fn law_context_of_either_kind(
    parents: Seq<Txid>,
    replaces: Txid,
    inputs: Seq<Utxo>,
    context: SpeedupContextView,
)
    ensures
        (SpeedupKindView::CPFP { parents, context }).context() == context,
        (SpeedupKindView::RBF { replaces, new_funding_inputs: inputs, context }).context() == context,
        (SpeedupKindView::CPFP { parents, context }).parents() == parents,
        (SpeedupKindView::RBF { replaces, new_funding_inputs: inputs, context }).parents().len() == 0,
{
}

// The queue

proof fn lemma_no_tip(all: Seq<CoordinatedTxView>)
    requires
        forall|j: int| 0 <= j < all.len() ==> (#[trigger] all[j]).kind is Speedup,
        forall|j: int| 0 <= j < all.len() ==> !#[trigger] is_free_at(all, j),
    ensures
        find_last(all, is_free_tip(all)) is None,
{
    lemma_find_last_sound(all, is_free_tip(all));
    if let Some(tip) = find_last(all, is_free_tip(all)) {
        let j = choose|j: int| 0 <= j < all.len() && all[j] == tip;
        lemma_free_at(all, j);
        assert(!is_free_at(all, j));
    }
}

/// The first element that satisfies the predicate is found.
pub proof fn lemma_first_is_found<A>(s: Seq<A>, p: spec_fn(A) -> bool, i: int)
    requires
        0 <= i < s.len(),
        p(s[i]),
        forall|j: int| 0 <= j < i ==> !p(#[trigger] s[j]),
    ensures
        find_first(s, p) == Some(s[i]),
    decreases s.len(),
{
    let rest = s.drop_last();
    if i < rest.len() {
        assert forall|j: int| 0 <= j < i implies !p(#[trigger] rest[j]) by {
            assert(!p(s[j]));
        }
        lemma_first_is_found(rest, p, i);
    } else {
        lemma_find_first_sound(rest, p);
        if let Some(x) = find_first(rest, p) {
            let k = choose|k: int| 0 <= k < rest.len() && rest[k] == x;
            assert(!p(s[k]));
        }
    }
}

/// The queue record is a funding UTXO or a speedup with change, and is claimed.
pub open spec fn is_claimed_entry(entry: CoordinatedTxView) -> bool {
    match entry.kind {
        TxKindView::Funding(data) => data.spent,
        TxKindView::Speedup(SpeedupKindView::CPFP { context, .. }) => context.spent
            && entry.tx.output.len() > 0 && context.funding_inputs.len() > 0,
        TxKindView::Speedup(SpeedupKindView::RBF { context, .. }) => context.spent
            && entry.tx.output.len() > 0 && context.funding_inputs.len() > 0,
        _ => false,
    }
}

/// Without free change the queue pays: the first funding UTXO or final speedup in it that is not claimed,
/// whatever stands after it.
pub proof fn law_queue_pays_in_order(all: Seq<CoordinatedTxView>, store: StoreView, i: int)
    requires
        forall|j: int| 0 <= j < all.len() ==> (#[trigger] all[j]).kind is Speedup,
        forall|j: int| 0 <= j < all.len() ==> !#[trigger] is_free_at(all, j),
        0 <= i < store.funding_records().len(),
        forall|j: int| 0 <= j < i ==> is_claimed_entry(#[trigger] store.funding_records()[j]),
    ensures
        ({
            let entry = store.funding_records()[i];
            &&& entry.kind matches TxKindView::Funding(data) ==> !data.spent ==> next_funding(all, store)
                == Ok::<Option<(CoordinatedTxView, Utxo)>, Seq<char>>(Some((entry, data.utxo)))
            &&& entry.kind is Speedup && !context_of(entry).spent && entry.tx.output.len() > 0
                && context_of(entry).funding_inputs.len() > 0 ==> next_funding(all, store) == Ok::<
                Option<(CoordinatedTxView, Utxo)>,
                Seq<char>,
            >(
                Some(
                    (
                        entry,
                        Utxo {
                            txid: entry.txid,
                            vout: (entry.tx.output.len() - 1) as u32,
                            amount: entry.tx.output[entry.tx.output.len() - 1].value,
                            pub_key: context_of(entry).funding_inputs[0].pub_key,
                        },
                    ),
                ),
            )
        }),
{
    lemma_no_tip(all);
    let queue = store.funding_records();
    assert forall|j: int| 0 <= j < i implies !is_unclaimed()(#[trigger] queue[j]) by {
        assert(is_claimed_entry(queue[j]));
    }
    if is_unclaimed()(queue[i]) {
        lemma_first_is_found(queue, is_unclaimed(), i);
    }
}

/// There is no funding exactly when nothing is free: without free change, a queue in which everything is
/// claimed offers nothing.
pub proof fn law_no_funding_when_all_is_claimed(all: Seq<CoordinatedTxView>, store: StoreView)
    requires
        forall|j: int| 0 <= j < all.len() ==> (#[trigger] all[j]).kind is Speedup,
        forall|j: int| 0 <= j < all.len() ==> !#[trigger] is_free_at(all, j),
        forall|j: int|
            0 <= j < store.funding_records().len() ==> is_claimed_entry(
                #[trigger] store.funding_records()[j],
            ),
    ensures
        next_funding(all, store) == Ok::<Option<(CoordinatedTxView, Utxo)>, Seq<char>>(None),
{
    lemma_no_tip(all);
    let queue = store.funding_records();
    lemma_find_first_sound(queue, is_unclaimed());
    if let Some(entry) = find_first(queue, is_unclaimed()) {
        let k = choose|k: int| 0 <= k < queue.len() && queue[k] == entry;
        assert(is_claimed_entry(queue[k]));
    }
}

/// A second input is combined whenever the queue holds an unclaimed funding UTXO: the first one; there is
/// none when all of them are claimed.
pub proof fn law_first_unclaimed_utxo_is_combined(store: StoreView, i: int)
    requires
        0 <= i <= store.funding_records().len(),
        forall|j: int|
            0 <= j < i ==> ((#[trigger] store.funding_records()[j]).kind matches TxKindView::Funding(data)
                ==> data.spent),
    ensures
        i < store.funding_records().len() && (
        store.funding_records()[i].kind matches TxKindView::Funding(data) && !data.spent) ==> find_first(
            store.funding_records(),
            is_spare(),
        ) == Some(store.funding_records()[i]),
        i == store.funding_records().len() ==> find_first(store.funding_records(), is_spare()) is None,
{
    let queue = store.funding_records();
    assert forall|j: int| 0 <= j < i implies !is_spare()(#[trigger] queue[j]) by {
        assert(queue[j].kind matches TxKindView::Funding(data) ==> data.spent);
    }
    if i < queue.len() {
        if is_spare()(queue[i]) {
            lemma_first_is_found(queue, is_spare(), i);
        }
    } else {
        lemma_find_first_sound(queue, is_spare());
        if let Some(entry) = find_first(queue, is_spare()) {
            let k = choose|k: int| 0 <= k < queue.len() && queue[k] == entry;
            assert(!is_spare()(queue[k]));
        }
    }
}

/// What the entries of the queue stand for, in order: a record that exists stands for itself, and another
/// output of its transaction for a funding UTXO of its own, while no record stands for that output.
pub proof fn law_queue_entries_stand_for_their_outputs(
    store: StoreView,
    larger: StoreView,
    entry: FundingEntry,
)
    requires
        larger.txs == store.txs,
        larger.funding == store.funding.push(entry),
    ensures
        larger.funding_records() == match entry {
            FundingEntry::Record(id) => if store.txs.contains_key(id) {
                store.funding_records().push(store.txs[id])
            } else {
                store.funding_records()
            },
            FundingEntry::Sibling(data) => if store.txs.contains_key(data.utxo.txid) && (
            store.txs[data.utxo.txid].kind is Speedup || (
            store.txs[data.utxo.txid].kind matches TxKindView::Funding(own) && own.utxo.vout
                == data.utxo.vout)) {
                store.funding_records()
            } else {
                store.funding_records().push(funding_record(data))
            },
        },
        store.funding.len() == 0 ==> store.funding_records().len() == 0,
        ({
            let data = entry->Sibling_0;
            let made = funding_record(data);
            made.txid == data.utxo.txid && made.kind == TxKindView::Funding(data)
        }),
{
    let n = store.funding.len() as int;
    let find = entry_record(larger.txs);
    lemma_filter_map_step(larger.funding, find, n);
    assert(larger.funding.take(n) =~= store.funding);
    assert(larger.funding.take(n + 1) =~= larger.funding);
    if store.funding.len() == 0 {
        lemma_filter_map_members(store.funding, find);
        if store.funding_records().len() > 0 {
            assert(store.funding_records().contains(store.funding_records()[0]));
        }
    }
}

// Marks

/// A claim mark is all that a claim or a release changes in a record: that of a funding UTXO, or of the
/// change of a speedup of either kind; other records have none.
pub proof fn law_mark_changes_nothing_else(tx: CoordinatedTxView, spent: bool)
    ensures
        ({
            let marked = with_spent(tx, spent);
            &&& marked == (CoordinatedTxView { kind: marked.kind, ..tx })
            &&& match tx.kind {
                TxKindView::Funding(data) => marked.kind == TxKindView::Funding(
                    FundingData { utxo: data.utxo, spent },
                ),
                TxKindView::Speedup(SpeedupKindView::CPFP { parents, context }) => marked.kind
                    == TxKindView::Speedup(
                    SpeedupKindView::CPFP {
                        parents,
                        context: SpeedupContextView { spent, ..context },
                    },
                ),
                TxKindView::Speedup(SpeedupKindView::RBF { replaces, new_funding_inputs, context }) => {
                    marked.kind == TxKindView::Speedup(
                        SpeedupKindView::RBF {
                            replaces,
                            new_funding_inputs,
                            context: SpeedupContextView { spent, ..context },
                        },
                    )
                },
                _ => marked == tx,
            }
        }),
{
}

/// Marking an output marks its record, when there is one that stands for it, and otherwise each entry of
/// the queue for that output; everything else stays as it is.
pub proof fn law_mark_finds_its_output(store: StoreView, id: Txid, vout: u32, spent: bool, k: int)
    requires
        store.is_keyed(),
        0 <= k < store.funding.len(),
    ensures
        ({
            let after = store.mark_output(id, vout, spent);
            let own = store.txs.contains_key(id) && (store.txs[id].kind is Speedup || (
            store.txs[id].kind matches TxKindView::Funding(data) && data.utxo.vout == vout));
            &&& own ==> after == store.put(with_spent(store.txs[id], spent))
            &&& !own ==> after.txs == store.txs && after.funding.len() == store.funding.len()
                && after.funding[k] == match store.funding[k] {
                FundingEntry::Sibling(data) => if data.utxo.txid == id && data.utxo.vout == vout {
                    FundingEntry::Sibling(FundingData { utxo: data.utxo, spent })
                } else {
                    store.funding[k]
                },
                _ => store.funding[k],
            }
            &&& after.news == store.news && after.speedups == store.speedups && after.pending
                == store.pending
        }),
{
}

/// Setting the mark of a record changes that record alone.
pub proof fn law_set_spent_is_local(store: StoreView, id: Txid, spent: bool)
    ensures
        store.txs.contains_key(id) ==> store.set_spent(id, spent) == store.put(
            with_spent(store.txs[id], spent),
        ),
        !store.txs.contains_key(id) ==> store.set_spent(id, spent) == store,
{
}

/// Releasing UTXOs releases each of them, one after the other.
pub proof fn law_every_claim_is_released(store: StoreView, utxos: Seq<Utxo>, more: Utxo)
    ensures
        release(store, Seq::<Utxo>::empty()) == store,
        release(store, utxos.push(more)) == release(store, utxos).mark_output(more.txid, more.vout, false),
{
    assert(utxos.push(more).drop_last() =~= utxos);
}

// Adding and clearing

/// A funding UTXO that is added is in the queue, not claimed, whatever was there before; the entries of
/// the queue keep their places, and the records of other transactions are untouched.
pub proof fn law_added_funding_is_unclaimed(store: StoreView, utxo: Utxo, other: Txid)
    requires
        other != utxo.txid,
    ensures
        ({
            let after = store.append_funding(utxo);
            let own = after.txs.contains_key(utxo.txid)
                && after.txs[utxo.txid].kind == TxKindView::Funding(FundingData { utxo, spent: false })
                && after.funding.contains(FundingEntry::Record(utxo.txid));
            &&& own || after.funding.contains(FundingEntry::Sibling(FundingData { utxo, spent: false }))
            &&& after.txs.get(other) == store.txs.get(other)
            &&& after.news == store.news && after.speedups == store.speedups && after.pending
                == store.pending
            &&& store.funding.len() <= after.funding.len() <= store.funding.len() + 1
            &&& forall|k: int|
                0 <= k < store.funding.len() && !is_output(store.funding[k], utxo.txid, utxo.vout)
                    ==> #[trigger] after.funding[k] == store.funding[k]
        }),
{
    let after = store.append_funding(utxo);
    let made = FundingEntry::Sibling(FundingData { utxo, spent: false });
    if store.is_sibling(utxo) {
        if has_output(store.funding, utxo.txid, utxo.vout) {
            let k = choose|k: int|
                0 <= k < store.funding.len() && is_output(
                    #[trigger] store.funding[k],
                    utxo.txid,
                    utxo.vout,
                );
            assert(after.funding[k] == made);
        } else {
            assert(after.funding[store.funding.len() as int] == made);
        }
    } else {
        if !store.funding.contains(FundingEntry::Record(utxo.txid)) {
            assert(after.funding[store.funding.len() as int] == FundingEntry::Record(utxo.txid));
        }
    }
}

/// Clearing the funding empties the queue and drops the records in it, and no other record.
pub proof fn law_clearing_drops_the_queue(store: StoreView, id: Txid)
    ensures
        ({
            let after = store.clear_funding();
            &&& after.funding.len() == 0
            &&& after.funding_records().len() == 0
            &&& store.funding.contains(FundingEntry::Record(id)) ==> !after.txs.contains_key(id)
            &&& !store.funding.contains(FundingEntry::Record(id)) ==> after.txs.get(id) == store.txs.get(id)
            &&& after.news == store.news && after.speedups == store.speedups && after.pending
                == store.pending
        }),
{
    let after = store.clear_funding();
    lemma_record_txids_members(store.funding);
    lemma_filter_map_members(after.funding, entry_record(after.txs));
    if after.funding_records().len() > 0 {
        assert(after.funding_records().contains(after.funding_records()[0]));
    }
    assert(record_txids(store.funding).to_set().contains(id) <==> record_txids(store.funding).contains(id));
}

// What is out of order

/// Free change that is not there is an error, and the queue is not asked instead: a free speedup without an
/// output or without a funding input.
pub proof fn law_free_speedup_without_change_is_an_error(
    all: Seq<CoordinatedTxView>,
    store: StoreView,
    i: int,
)
    requires
        forall|j: int| 0 <= j < all.len() ==> (#[trigger] all[j]).kind is Speedup,
        is_free_at(all, i),
        forall|j: int| i < j < all.len() ==> !#[trigger] is_free_at(all, j),
        all[i].tx.output.len() == 0 || context_of(all[i]).funding_inputs.len() == 0,
    ensures
        next_funding(all, store) is Err,
{
    lemma_free_at(all, i);
    assert forall|j: int| i < j < all.len() implies !is_free_tip(all)(#[trigger] all[j]) by {
        lemma_free_at(all, j);
        assert(!is_free_at(all, j));
    }
    lemma_last_is_found(all, is_free_tip(all), i);
}

/// Restoring a queue keeps its order; of several entries for another output of the same transaction, the
/// first is kept.
pub proof fn law_restored_queue_lists_each_output_once(queue: Seq<FundingEntry>, more: FundingEntry)
    ensures
        listed_once(queue.push(more)) == match more {
            FundingEntry::Record(_) => listed_once(queue).push(more),
            FundingEntry::Sibling(data) => if exists|i: int|
                0 <= i < listed_once(queue).len() && (
                #[trigger] listed_once(queue)[i] matches FundingEntry::Sibling(other) && other.utxo.txid
                    == data.utxo.txid && other.utxo.vout == data.utxo.vout) {
                listed_once(queue)
            } else {
                listed_once(queue).push(more)
            },
        },
        listed_once(Seq::<FundingEntry>::empty()).len() == 0,
{
    assert(queue.push(more).drop_last() =~= queue);
    if let FundingEntry::Sibling(data) = more {
        let rest = listed_once(queue);
        if has_output(rest, data.utxo.txid, data.utxo.vout) {
            let i = choose|i: int|
                0 <= i < rest.len() && is_output(#[trigger] rest[i], data.utxo.txid, data.utxo.vout);
            assert(rest[i] matches FundingEntry::Sibling(other) && other.utxo.txid == data.utxo.txid
                && other.utxo.vout == data.utxo.vout);
        }
        if exists|i: int|
            0 <= i < rest.len() && (#[trigger] rest[i] matches FundingEntry::Sibling(other)
                && other.utxo.txid == data.utxo.txid && other.utxo.vout == data.utxo.vout) {
            let i = choose|i: int|
                0 <= i < rest.len() && (#[trigger] rest[i] matches FundingEntry::Sibling(other)
                    && other.utxo.txid == data.utxo.txid && other.utxo.vout == data.utxo.vout);
            assert(is_output(rest[i], data.utxo.txid, data.utxo.vout));
        }
    }
}

} // verus!
