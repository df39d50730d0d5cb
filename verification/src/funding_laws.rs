use crate::funding::{is_free_tip, is_spare, is_unclaimed, next_funding, release};
use crate::lemmas::{
    lemma_filter_all, lemma_filter_map_members, lemma_filter_map_step, lemma_filter_members,
    lemma_find_first_sound, lemma_find_last_sound, lemma_listed_once, lemma_mark_keeps_ownership,
    lemma_present_members,
};
use crate::model::{
    any_record, append_new, by_txid, entry_record, find_first, find_last, funding_record, has_output,
    has_own_record, is_no_input, is_output, listed_once, lists_selected, not_listed, other_than,
    outside_of, own_outputs, record_txids, same_output, sibling, siblings_differ, with_replaced_by, with_spent,
    without_all, StoreView,
};
use crate::primitives::{BlockHeight, Txid};
use crate::types::{
    CoordinatedTxView, FundingData, FundingEntry, SpeedupKindView, TransactionState, TxKindView, Utxo,
};
use vstd::prelude::*;

verus! {

// Claims

/// Whatever offers the output is not claimed: the record of the transaction, when it stands for the
/// output, and else the siblings for it.
pub open spec fn is_unclaimed_output(store: StoreView, txid: Txid, vout: u32) -> bool {
    if has_own_record(store.txs, txid, vout) {
        store.txs[txid].funding_info() matches Some(info) && !info.1
    } else {
        forall|i: int|
            0 <= i < store.funding.len() && is_output(#[trigger] store.funding[i], txid, vout)
                ==> !store.funding[i]->Sibling_0.spent
    }
}

/// Whatever offers the output is claimed.
pub open spec fn is_claimed_output(store: StoreView, txid: Txid, vout: u32) -> bool {
    if has_own_record(store.txs, txid, vout) {
        store.txs[txid].funding_info() matches Some(info) ==> info.1
    } else {
        forall|i: int|
            0 <= i < store.funding.len() && is_output(#[trigger] store.funding[i], txid, vout)
                ==> store.funding[i]->Sibling_0.spent
    }
}

/// Marks do not change what a record stands for.
proof fn lemma_marks_keep_records(store: StoreView, id: Txid, at: u32, spent: bool, txid: Txid, vout: u32)
    requires
        store.is_keyed(),
    ensures
        store.mark_output(id, at, spent).is_keyed(),
        has_own_record(store.mark_output(id, at, spent).txs, txid, vout) == has_own_record(
            store.txs,
            txid,
            vout,
        ),
{
    let after = store.mark_output(id, at, spent);
    assert forall|x: Txid| #[trigger] after.txs.contains_key(x) implies after.txs[x].txid == x by {
        assert(store.txs.contains_key(x));
    }
    if store.txs.contains_key(txid) {
        match store.txs[txid].kind {
            TxKindView::Funding(_) => {},
            TxKindView::Speedup(_) => {},
            _ => {},
        }
    }
}

/// Releasing a claim undoes it.
pub proof fn law_release_undoes_claim(store: StoreView, utxo: Utxo)
    requires
        store.is_keyed(),
        is_unclaimed_output(store, utxo.txid, utxo.vout),
    ensures
        release(store.mark_output(utxo.txid, utxo.vout, true), seq![utxo]) == store,
{
    let claimed = store.mark_output(utxo.txid, utxo.vout, true);
    reveal_with_fuel(release, 2);
    assert(seq![utxo].drop_last() =~= Seq::empty());
    assert(seq![utxo].last() == utxo);
    let freed = claimed.mark_output(utxo.txid, utxo.vout, false);
    lemma_marks_keep_records(store, utxo.txid, utxo.vout, true, utxo.txid, utxo.vout);
    if has_own_record(store.txs, utxo.txid, utxo.vout) {
        let tx = store.txs[utxo.txid];
        assert(with_spent(with_spent(tx, true), false) == tx) by {
            match tx.kind {
                TxKindView::Funding(_) => {},
                TxKindView::Speedup(_) => {},
                _ => {},
            }
        }
    }
    assert(freed.txs =~= store.txs);
    assert(freed.funding =~= store.funding);
}

/// A record of the store, or a sibling whose output no record stands for.
spec fn is_source(store: StoreView, source: CoordinatedTxView) -> bool {
    (store.txs.contains_key(source.txid) && store.txs[source.txid] == source) || exists|i: int|
        0 <= i < store.funding.len() && (#[trigger] store.funding[i] matches FundingEntry::Sibling(data)
            && source == funding_record(data) && !has_own_record(
            store.txs,
            data.utxo.txid,
            data.utxo.vout,
        ))
}

/// What stands in the queue is a record or a sibling of the store.
proof fn lemma_queue_sources(store: StoreView)
    requires
        store.is_keyed(),
    ensures
        forall|tx: CoordinatedTxView| #[trigger]
            store.funding_records().contains(tx) ==> is_source(store, tx),
{
    let find = entry_record(store.txs);
    lemma_filter_map_members(store.funding, find);
    assert forall|tx: CoordinatedTxView| #[trigger] store.funding_records().contains(tx) implies is_source(
        store,
        tx,
    ) by {
        let k = choose|k: int|
            0 <= k < store.funding.len() && find(#[trigger] store.funding[k]) == Some(tx);
        match store.funding[k] {
            FundingEntry::Record(id) => {
                assert(store.txs.contains_key(id));
            },
            FundingEntry::Sibling(data) => {
                assert(store.funding[k] matches FundingEntry::Sibling(d) && tx == funding_record(d)
                    && !has_own_record(store.txs, d.utxo.txid, d.utxo.vout));
            },
        }
    }
}

/// What the funding manager offers first comes from the store and is not claimed.
proof fn lemma_offer(store: StoreView)
    requires
        store.is_keyed(),
    ensures
        next_funding(store.speedup_records(), store) matches Ok(Some((source, output)))
            ==> source.funding_info() == Some((output, false)) && source.offers(output.vout)
            && is_source(store, source),
{
    let all = store.speedup_records();
    let queue = store.funding_records();
    lemma_present_members(store.txs, store.speedups);
    lemma_queue_sources(store);
    lemma_find_last_sound(all, is_free_tip(all));
    lemma_find_first_sound(queue, is_unclaimed());
    if let Ok(Some((source, output))) = next_funding(all, store) {
        match find_last(all, is_free_tip(all)) {
            Some(tip) => {
                assert(all.contains(tip));
                let k = choose|k: int|
                    0 <= k < store.speedups.len() && store.txs.contains_key(
                        #[trigger] store.speedups[k],
                    ) && store.txs[store.speedups[k]] == tip;
                assert(store.txs.contains_key(store.speedups[k]));
            },
            None => {
                assert(queue.contains(source));
            },
        }
    }
}

/// The same of what it offers for combining.
proof fn lemma_spare(store: StoreView)
    requires
        store.is_keyed(),
    ensures
        find_first(store.funding_records(), is_spare()) matches Some(source) ==> source.kind is Funding
            && source.funding_info() == Some((source.kind->Funding_0.utxo, false)) && source.offers(
            source.kind->Funding_0.utxo.vout,
        ) && is_source(store, source),
{
    let queue = store.funding_records();
    lemma_queue_sources(store);
    lemma_find_first_sound(queue, is_spare());
    if let Some(source) = find_first(queue, is_spare()) {
        assert(queue.contains(source));
    }
}

/// Claiming a free output claims whatever offers it, and takes no other claim away.
proof fn lemma_claim(store: StoreView, source: CoordinatedTxView, output: Utxo)
    requires
        store.is_keyed(),
        store.owns_outputs(),
        is_source(store, source),
        source.funding_info() == Some((output, false)),
        source.offers(output.vout),
    ensures
        output.txid == source.txid,
        !is_claimed_output(store, output.txid, output.vout),
        ({
            let after = store.mark_output(source.txid, output.vout, true);
            &&& after.is_keyed()
            &&& after.owns_outputs()
            &&& is_claimed_output(after, output.txid, output.vout)
            &&& forall|txid: Txid, vout: u32| #[trigger]
                is_claimed_output(store, txid, vout) ==> is_claimed_output(after, txid, vout)
        }),
{
    let after = store.mark_output(source.txid, output.vout, true);
    let id = source.txid;
    if store.txs.contains_key(id) && store.txs[id] == source {
        assert(source.owns_output());
    } else {
        let i = choose|i: int|
            0 <= i < store.funding.len() && (#[trigger] store.funding[i] matches FundingEntry::Sibling(data)
                && source == funding_record(data) && !has_own_record(
                store.txs,
                data.utxo.txid,
                data.utxo.vout,
            ));
        assert(is_output(store.funding[i], output.txid, output.vout));
    }
    lemma_marks_keep_records(store, id, output.vout, true, id, output.vout);
    lemma_mark_keeps_ownership(store, id, output.vout, true);
    if has_own_record(store.txs, id, output.vout) {
        match store.txs[id].kind {
            TxKindView::Funding(_) => {},
            TxKindView::Speedup(_) => {},
            _ => {},
        }
    }
    assert(is_claimed_output(after, id, output.vout)) by {
        if !has_own_record(after.txs, id, output.vout) {
            assert forall|i: int|
                0 <= i < after.funding.len() && is_output(#[trigger] after.funding[i], id, output.vout) implies after.funding[i]->Sibling_0.spent by {
                assert(is_output(store.funding[i], id, output.vout));
            }
        }
    }
    assert forall|txid: Txid, vout: u32| #[trigger] is_claimed_output(store, txid, vout) implies is_claimed_output(
        after,
        txid,
        vout,
    ) by {
        lemma_marks_keep_records(store, id, output.vout, true, txid, vout);
        if has_own_record(store.txs, txid, vout) {
            match store.txs[txid].kind {
                TxKindView::Funding(_) => {},
                TxKindView::Speedup(_) => {},
                _ => {},
            }
        } else {
            assert forall|i: int|
                0 <= i < after.funding.len() && is_output(#[trigger] after.funding[i], txid, vout) implies after.funding[i]->Sibling_0.spent by {
                assert(is_output(store.funding[i], txid, vout));
            }
        }
    }
}

/// What `get_funding`, with the speedups read from the store, returns and leaves; with `combine`, the
/// same of `get_combine_funding`.
pub open spec fn claim_next(store: StoreView, combine: bool) -> (Option<Utxo>, StoreView) {
    if combine {
        match find_first(store.funding_records(), is_spare()) {
            Some(source) => (
                Some(source.kind->Funding_0.utxo),
                store.mark_output(source.txid, source.kind->Funding_0.utxo.vout, true),
            ),
            None => (None, store),
        }
    } else {
        match next_funding(store.speedup_records(), store) {
            Ok(Some((source, output))) => (
                Some(output),
                store.mark_output(source.txid, output.vout, true),
            ),
            _ => (None, store),
        }
    }
}

/// What a row of such calls returns, in order, and leaves.
pub open spec fn claim_all(store: StoreView, calls: Seq<bool>) -> (Seq<Utxo>, StoreView)
    decreases calls.len(),
{
    if calls.len() == 0 {
        (Seq::empty(), store)
    } else {
        let (got, before) = claim_all(store, calls.drop_last());
        match claim_next(before, calls.last()) {
            (Some(utxo), after) => (got.push(utxo), after),
            (None, after) => (got, after),
        }
    }
}

proof fn lemma_claims(store: StoreView, calls: Seq<bool>)
    requires
        store.is_keyed(),
        store.owns_outputs(),
    ensures
        ({
            let (got, after) = claim_all(store, calls);
            &&& after.is_keyed()
            &&& after.owns_outputs()
            &&& forall|i: int|
                0 <= i < got.len() ==> is_claimed_output(after, (#[trigger] got[i]).txid, got[i].vout)
            &&& forall|i: int, j: int|
                0 <= i < j < got.len() ==> (#[trigger] got[i]).txid != (#[trigger] got[j]).txid
                    || got[i].vout != got[j].vout
        }),
    decreases calls.len(),
{
    if calls.len() > 0 {
        let rest = calls.drop_last();
        lemma_claims(store, rest);
        let (got, before) = claim_all(store, rest);
        if calls.last() {
            lemma_spare(before);
            if let Some(source) = find_first(before.funding_records(), is_spare()) {
                lemma_claim(before, source, source.kind->Funding_0.utxo);
            }
        } else {
            lemma_offer(before);
            if let Ok(Some((source, output))) = next_funding(before.speedup_records(), before) {
                lemma_claim(before, source, output);
            }
        }
        let (all, after) = claim_all(store, calls);
        assert forall|i: int, j: int| 0 <= i < j < all.len() implies (#[trigger] all[i]).txid != (
        #[trigger] all[j]).txid || all[i].vout != all[j].vout by {
            assert(all[i] == got[i]);
            assert(is_claimed_output(before, got[i].txid, got[i].vout));
            if j < got.len() {
                assert(all[j] == got[j]);
            }
        }
        assert forall|i: int| 0 <= i < all.len() implies is_claimed_output(
            after,
            (#[trigger] all[i]).txid,
            all[i].vout,
        ) by {
            if i < got.len() {
                assert(all[i] == got[i]);
                assert(is_claimed_output(before, got[i].txid, got[i].vout));
            }
        }
    }
}

/// However often funding is claimed, first or for combining, no output is ever offered twice unless it
/// is released in between.
pub proof fn law_claimed_funding_is_not_offered_again(store: StoreView, calls: Seq<bool>, i: int, j: int)
    requires
        store.is_keyed(),
        store.owns_outputs(),
        0 <= i < j < claim_all(store, calls).0.len(),
    ensures
        ({
            let got = claim_all(store, calls).0;
            got[i].txid != got[j].txid || got[i].vout != got[j].vout
        }),
{
    lemma_claims(store, calls);
}

/// A claim sets one mark and changes nothing else: that of the record that offers the output, or that of
/// the sibling.
pub proof fn law_claim_sets_one_mark(store: StoreView, source: CoordinatedTxView, output: Utxo)
    requires
        store.is_keyed(),
        store.owns_outputs(),
        siblings_differ(store.funding),
        next_funding(store.speedup_records(), store) == Ok::<
            Option<(CoordinatedTxView, Utxo)>,
            Seq<char>,
        >(Some((source, output))),
    ensures
        output.txid == source.txid,
        is_unclaimed_output(store, output.txid, output.vout),
        ({
            let after = store.mark_output(source.txid, output.vout, true);
            ||| store.txs.contains_key(source.txid) && store.txs[source.txid] == source && after
                == store.put(with_spent(source, true))
            ||| exists|k: int|
                0 <= k < store.funding.len() && #[trigger] store.funding[k] == sibling(output, false)
                    && after == (StoreView {
                    funding: store.funding.update(k, sibling(output, true)),
                    ..store
                })
        }),
{
    lemma_offer(store);
    lemma_claim(store, source, output);
    let after = store.mark_output(source.txid, output.vout, true);
    let id = source.txid;
    if store.txs.contains_key(id) && store.txs[id] == source {
        assert(has_own_record(store.txs, id, output.vout));
    } else {
        let k = choose|k: int|
            0 <= k < store.funding.len() && (#[trigger] store.funding[k] matches FundingEntry::Sibling(data)
                && source == funding_record(data) && !has_own_record(
                store.txs,
                data.utxo.txid,
                data.utxo.vout,
            ));
        assert(store.funding[k] == sibling(output, false));
        assert forall|i: int| 0 <= i < store.funding.len() && i != k implies !is_output(
            #[trigger] store.funding[i],
            id,
            output.vout,
        ) by {
            if i < k {
                assert(!same_output(store.funding[i], store.funding[k]));
            } else {
                assert(!same_output(store.funding[k], store.funding[i]));
            }
        }
        assert(after.funding =~= store.funding.update(k, sibling(output, true)));
    }
}

/// Giving back what was offered restores the store, and the next call offers the same again.
pub proof fn law_released_offer_is_offered_again(
    store: StoreView,
    source: CoordinatedTxView,
    output: Utxo,
)
    requires
        store.is_keyed(),
        store.owns_outputs(),
        siblings_differ(store.funding),
        next_funding(store.speedup_records(), store) == Ok::<
            Option<(CoordinatedTxView, Utxo)>,
            Seq<char>,
        >(Some((source, output))),
    ensures
        ({
            let freed = release(store.mark_output(source.txid, output.vout, true), seq![output]);
            &&& freed == store
            &&& next_funding(freed.speedup_records(), freed) == Ok::<
                Option<(CoordinatedTxView, Utxo)>,
                Seq<char>,
            >(Some((source, output)))
        }),
{
    law_claim_sets_one_mark(store, source, output);
    law_release_undoes_claim(store, output);
}

/// The records that an owning store hands out own their outputs too: any listing of it, and the speedups
/// and the funding in particular.
pub proof fn law_listed_records_own_their_outputs(
    store: StoreView,
    listing: Seq<CoordinatedTxView>,
    keep: spec_fn(CoordinatedTxView) -> bool,
)
    requires
        store.is_keyed(),
        store.owns_outputs(),
        lists_selected(listing, store.txs, keep),
    ensures
        own_outputs(listing),
        own_outputs(store.speedup_records()),
        own_outputs(store.funding_records()),
{
    lemma_present_members(store.txs, store.speedups);
    lemma_queue_sources(store);
    let speedups = store.speedup_records();
    let funding = store.funding_records();
    assert forall|i: int| 0 <= i < listing.len() implies (#[trigger] listing[i]).owns_output() by {
        assert(store.txs.contains_key(listing[i].txid));
    }
    assert forall|i: int| 0 <= i < speedups.len() implies (#[trigger] speedups[i]).owns_output() by {
        assert(speedups.contains(speedups[i]));
        let k = choose|k: int|
            0 <= k < store.speedups.len() && store.txs.contains_key(#[trigger] store.speedups[k])
                && store.txs[store.speedups[k]] == speedups[i];
        assert(store.txs.contains_key(store.speedups[k]));
    }
    assert forall|i: int| 0 <= i < funding.len() implies (#[trigger] funding[i]).owns_output() by {
        assert(funding.contains(funding[i]));
        assert(is_source(store, funding[i]));
    }
}

// The order of the queue

/// The queue keeps the order in which funding was added: a UTXO that is not in it goes to the end, whether
/// or not another output of its transaction is in it already.
pub proof fn law_queue_keeps_insertion_order(store: StoreView, utxo: Utxo)
    requires
        !has_output(store.funding, utxo.txid, utxo.vout),
        store.funding.contains(FundingEntry::Record(utxo.txid)) ==> store.is_sibling(utxo),
        forall|i: int|
            0 <= i < store.funding.len() && (
            #[trigger] store.funding[i] matches FundingEntry::Sibling(data) && data.utxo.txid == utxo.txid)
                ==> !store.has_speedup(utxo.txid),
    ensures
        store.append_funding(utxo).funding_records() == store.funding_records().push(
            funding_record(FundingData { utxo, spent: false }),
        ),
{
    let after = store.append_funding(utxo);
    let n = store.funding.len() as int;
    let now = entry_record(after.txs);
    let data = FundingData { utxo, spent: false };
    assert(after.funding.take(n) =~= store.funding);
    assert(after.funding.take(n + 1) =~= after.funding);
    lemma_filter_map_step(after.funding, now, n);
    assert(now(after.funding[n]) == Some(funding_record(data)));
    assert forall|i: int| 0 <= i < n implies now(#[trigger] store.funding[i]) == entry_record(store.txs)(
        store.funding[i],
    ) by {
        assert(store.funding.contains(store.funding[i]));
        assert(!is_output(store.funding[i], utxo.txid, utxo.vout));
    }
    lemma_filter_map_agree(store.funding, now, entry_record(store.txs));
}

/// Two maps that agree on the members yield the same.
proof fn lemma_filter_map_agree<A, B>(
    s: Seq<A>,
    f: spec_fn(A) -> Option<B>,
    g: spec_fn(A) -> Option<B>,
)
    requires
        forall|i: int| 0 <= i < s.len() ==> f(#[trigger] s[i]) == g(s[i]),
    ensures
        s.filter_map(f) == s.filter_map(g),
    decreases s.len(),
{
    if s.len() == 0 {
        assert(s.filter_map(f) =~= s.filter_map(g));
    } else {
        let rest = s.drop_last();
        let n = s.len() - 1;
        assert forall|i: int| 0 <= i < rest.len() implies f(#[trigger] rest[i]) == g(rest[i]) by {
            assert(f(s[i]) == g(s[i]));
        }
        lemma_filter_map_agree(rest, f, g);
        lemma_filter_map_step(s, f, n);
        lemma_filter_map_step(s, g, n);
        assert(s.take(s.len() as int) =~= s);
        assert(s.take(n) =~= rest);
        assert(f(s[n]) == g(s[n]));
    }
}

/// Two funding UTXOs of one transaction are both kept and both offered: adding one leaves the other in
/// the queue as it was.
pub proof fn law_outputs_of_one_transaction_are_kept_apart(store: StoreView, first: Utxo, second: Utxo)
    requires
        first.txid == second.txid,
        first.vout != second.vout,
        !store.is_sibling(first),
    ensures
        ({
            let both = store.append_funding(first).append_funding(second);
            &&& both.funding_records().contains(
                funding_record(FundingData { utxo: first, spent: false }),
            )
            &&& both.funding_records().contains(
                funding_record(FundingData { utxo: second, spent: false }),
            )
        }),
{
    let one = store.append_funding(first);
    let both = one.append_funding(second);
    let a = FundingData { utxo: first, spent: false };
    let b = FundingData { utxo: second, spent: false };
    let find = entry_record(both.txs);
    assert(one.txs[first.txid] == funding_record(a));
    assert(one.is_sibling(second));
    lemma_appended(store.funding, FundingEntry::Record(first.txid));
    lemma_filter_map_members(both.funding, find);
    let k = choose|k: int|
        0 <= k < one.funding.len() && one.funding[k] == FundingEntry::Record(first.txid);
    assert(both.funding[k] == FundingEntry::Record(first.txid));
    assert(find(both.funding[k]) == Some(funding_record(a)));
    let i = if has_output(one.funding, second.txid, second.vout) {
        choose|i: int|
            0 <= i < one.funding.len() && is_output(
                #[trigger] one.funding[i],
                second.txid,
                second.vout,
            )
    } else {
        one.funding.len() as int
    };
    assert(both.funding[i] == sibling(second, false));
    assert(find(both.funding[i]) == Some(funding_record(b)));
}

// Where funding comes from

/// The funding walk never builds on a dead branch: the speedup whose change is offered from the speedup
/// list has not failed, is not being replaced, and waits for nothing.
pub proof fn law_funding_comes_from_a_live_tip(all: Seq<CoordinatedTxView>)
    ensures
        find_last(all, is_free_tip(all)) matches Some(tip) ==> all.contains(tip) && !(tip.state is Failed)
            && !(tip.state is ToDispatch) && (tip.is_speedup() ==> !tip.has_live_replacement(all)
            && !tip.speedup().context().spent),
{
    lemma_find_last_sound(all, is_free_tip(all));
}

/// The change of a live speedup is preferred to the queue.
pub proof fn law_tip_before_queue(all: Seq<CoordinatedTxView>, store: StoreView, i: int)
    requires
        0 <= i < all.len(),
        is_free_tip(all)(all[i]),
        next_funding(all, store) is Ok,
    ensures
        next_funding(all, store) matches Ok(Some((source, _))) && all.contains(source),
{
    lemma_find_last_sound(all, is_free_tip(all));
}

proof fn lemma_appended<A>(list: Seq<A>, item: A)
    ensures
        append_new(list, item).contains(item),
{
    if !list.contains(item) {
        assert(list.push(item)[list.len() as int] == item);
    }
}

/// Adding a funding UTXO never lists it twice, and neither does saving a speedup or queueing a parent.
pub proof fn law_lists_stay_duplicate_free<A>(list: Seq<A>, item: A)
    requires
        list.no_duplicates(),
    ensures
        append_new(list, item).no_duplicates(),
        append_new(list, item).contains(item),
{
    if !list.contains(item) {
        let after = list.push(item);
        assert(after[list.len() as int] == item);
        assert forall|i: int, j: int| 0 <= i < after.len() && 0 <= j < after.len() && i != j implies after[i]
            != after[j] by {
            if i < list.len() && j < list.len() {
                assert(list[i] != list[j]);
            } else if i < list.len() {
                assert(list.contains(list[i]));
            } else {
                assert(list.contains(list[j]));
            }
        }
    }
}

// Eviction

/// A record that is still needed is not evicted: one that is not settled, a parent that waits for a CPFP
/// or is covered by a live one, and an entry of the funding queue.
pub proof fn law_needed_records_are_kept(
    store: StoreView,
    id: Txid,
    height: BlockHeight,
    max_tracking: u32,
)
    requires
        store.txs.contains_key(id),
        !store.txs[id].state.is_terminal() || store.funding.contains(FundingEntry::Record(id)) || (
        store.txs[id].kind is NeedsSpeedup && (store.pending.contains(id) || store.is_live_covered(id))),
    ensures
        !store.evictable(height, max_tracking).contains(id),
        store.txs.remove_keys(store.evictable(height, max_tracking)).contains_key(id),
{
}

/// The store after an eviction, up to the news.
pub open spec fn evicted(store: StoreView, height: BlockHeight, max_tracking: u32) -> StoreView {
    StoreView {
        txs: store.txs.remove_keys(store.evictable(height, max_tracking)),
        speedups: without_all(store.speedups, store.evictable(height, max_tracking)),
        ..store
    }
}

/// An eviction is complete: nothing is left to evict at the same height.
pub proof fn law_eviction_is_complete(store: StoreView, height: BlockHeight, max_tracking: u32)
    ensures
        evicted(store, height, max_tracking).evictable(height, max_tracking) =~= Set::<Txid>::empty(),
{
    let gone = store.evictable(height, max_tracking);
    let after = evicted(store, height, max_tracking);
    lemma_filter_members(store.speedups, outside_of(gone));
    assert forall|id: Txid| !after.evictable(height, max_tracking).contains(id) by {
        if after.is_evictable(id, height, max_tracking) {
            assert(store.txs.contains_key(id) && !gone.contains(id));
            assert(after.txs[id] == store.txs[id]);
            if store.is_live_covered(id) {
                let i = choose|i: int|
                    0 <= i < store.speedups.len() && store.covers(#[trigger] store.speedups[i], id);
                let s = store.speedups[i];
                assert(!gone.contains(s));
                assert(store.speedups.contains(s));
                assert(after.speedups.contains(s));
                let k = choose|k: int| 0 <= k < after.speedups.len() && after.speedups[k] == s;
                assert(after.covers(after.speedups[k], id));
                assert(after.is_live_covered(id));
            }
            assert(store.is_evictable(id, height, max_tracking));
        }
    }
}

// Failed speedups

/// One of the UTXOs is an output that the record `tx` stands for.
spec fn names(utxos: Seq<Utxo>, tx: CoordinatedTxView) -> bool {
    exists|i: int| 0 <= i < utxos.len() && (#[trigger] utxos[i]).txid == tx.txid && tx.offers(utxos[i].vout)
}

/// Releasing claims clears the marks of the records that stand for the outputs and of no others.
proof fn lemma_release(store: StoreView, utxos: Seq<Utxo>, id: Txid)
    requires
        store.is_keyed(),
    ensures
        release(store, utxos).is_keyed(),
        release(store, utxos).txs.contains_key(id) == store.txs.contains_key(id),
        store.txs.contains_key(id) ==> release(store, utxos).txs[id] == if names(utxos, store.txs[id]) {
            with_spent(store.txs[id], false)
        } else {
            store.txs[id]
        },
        release(store, utxos).pending == store.pending,
    decreases utxos.len(),
{
    if utxos.len() > 0 {
        let rest = utxos.drop_last();
        let last = utxos.last();
        lemma_release(store, rest, id);
        let before = release(store, rest);
        assert(release(store, utxos).is_keyed()) by {
            assert forall|x: Txid| #[trigger] release(store, utxos).txs.contains_key(x) implies release(
                store,
                utxos,
            ).txs[x].txid == x by {
                assert(before.txs.contains_key(x));
            }
        }
        assert(utxos[utxos.len() - 1] == last);
        if store.txs.contains_key(id) {
            let tx = store.txs[id];
            if names(rest, tx) {
                let i = choose|i: int|
                    0 <= i < rest.len() && (#[trigger] rest[i]).txid == tx.txid && tx.offers(rest[i].vout);
                assert(utxos[i].txid == tx.txid && tx.offers(utxos[i].vout));
            }
            if names(utxos, tx) && !(last.txid == tx.txid && tx.offers(last.vout)) {
                let i = choose|i: int|
                    0 <= i < utxos.len() && (#[trigger] utxos[i]).txid == tx.txid && tx.offers(
                        utxos[i].vout,
                    );
                assert(rest[i].txid == tx.txid);
            }
            assert(with_spent(with_spent(tx, false), false) == with_spent(tx, false)) by {
                match tx.kind {
                    TxKindView::Funding(_) => {},
                    TxKindView::Speedup(_) => {},
                    _ => {},
                }
            }
            assert(with_spent(tx, false).offers(last.vout) == tx.offers(last.vout)) by {
                match tx.kind {
                    TxKindView::Funding(_) => {},
                    TxKindView::Speedup(_) => {},
                    _ => {},
                }
            }
        }
    }
}

/// Releasing claims clears the marks of the siblings among the UTXOs whose output no record stands for.
proof fn lemma_release_siblings(store: StoreView, utxos: Seq<Utxo>, k: int)
    requires
        store.is_keyed(),
        0 <= k < store.funding.len(),
    ensures
        release(store, utxos).is_keyed(),
        release(store, utxos).funding.len() == store.funding.len(),
        release(store, utxos).funding[k] == match store.funding[k] {
            FundingEntry::Record(id) => FundingEntry::Record(id),
            FundingEntry::Sibling(data) => sibling(
                data.utxo,
                data.spent && (is_no_input(utxos)(data) || has_own_record(
                    store.txs,
                    data.utxo.txid,
                    data.utxo.vout,
                )),
            ),
        },
        store.funding[k] matches FundingEntry::Sibling(data) ==> has_own_record(
            release(store, utxos).txs,
            data.utxo.txid,
            data.utxo.vout,
        ) == has_own_record(store.txs, data.utxo.txid, data.utxo.vout),
    decreases utxos.len(),
{
    if utxos.len() > 0 {
        let rest = utxos.drop_last();
        let last = utxos.last();
        let before = release(store, rest);
        lemma_release_siblings(store, rest, k);
        assert(utxos[utxos.len() - 1] == last);
        lemma_marks_keep_records(before, last.txid, last.vout, false, last.txid, last.vout);
        if let FundingEntry::Sibling(data) = store.funding[k] {
            lemma_marks_keep_records(
                before,
                last.txid,
                last.vout,
                false,
                data.utxo.txid,
                data.utxo.vout,
            );
            if is_no_input(rest)(data) && !is_output(store.funding[k], last.txid, last.vout) {
                assert forall|i: int| 0 <= i < utxos.len() implies !((#[trigger] utxos[i]).txid
                    == data.utxo.txid && utxos[i].vout == data.utxo.vout) by {
                    if i < rest.len() {
                        assert(rest[i] == utxos[i]);
                    }
                }
            }
            if is_no_input(utxos)(data) {
                assert forall|i: int| 0 <= i < rest.len() implies !((#[trigger] rest[i]).txid
                    == data.utxo.txid && rest[i].vout == data.utxo.vout) by {
                    assert(rest[i] == utxos[i]);
                }
            }
        }
    }
}

/// A CPFP that failed gives all its funding back: what it had claimed is free for the next attempt.
pub proof fn law_failed_cpfp_gives_its_funding_back(
    store: StoreView,
    tx: CoordinatedTxView,
    height: BlockHeight,
    funding_missing: bool,
    i: int,
)
    requires
        store.is_keyed(),
        tx.kind matches TxKindView::Speedup(SpeedupKindView::CPFP { .. }),
        0 <= i < tx.speedup().context().funding_inputs.len(),
    ensures
        ({
            let input = tx.speedup().context().funding_inputs[i];
            let after = store.settle_failed(tx, height, funding_missing);
            if has_own_record(after.txs, input.txid, input.vout) {
                after.txs[input.txid].funding_info() matches Some(info) ==> !info.1
            } else {
                forall|k: int|
                    0 <= k < after.funding.len() && is_output(
                        #[trigger] after.funding[k],
                        input.txid,
                        input.vout,
                    ) ==> !after.funding[k]->Sibling_0.spent
            }
        }),
{
    let inputs = tx.speedup().context().funding_inputs;
    let input = inputs[i];
    let id = input.txid;
    let reported = store.settle(tx.txid, TransactionState::Failed, height).report(tx.dispatch_error());
    assert(reported.is_keyed());
    lemma_release(reported, inputs, id);
    let after = store.settle_failed(tx, height, funding_missing);
    let freed = release(reported, inputs);
    assert(after.txs == freed.txs);
    assert(after.funding == freed.funding);
    if after.txs.contains_key(id) && after.txs[id].offers(input.vout) {
        match reported.txs[id].kind {
            TxKindView::Funding(_) => {},
            TxKindView::Speedup(_) => {},
            _ => {},
        }
        assert(inputs[i].txid == reported.txs[id].txid && reported.txs[id].offers(inputs[i].vout));
        assert(names(inputs, reported.txs[id]));
    }
    assert forall|k: int|
        0 <= k < after.funding.len() && !has_own_record(after.txs, id, input.vout) && is_output(
            #[trigger] after.funding[k],
            input.txid,
            input.vout,
        ) implies !after.funding[k]->Sibling_0.spent by {
        lemma_release_len(reported, inputs);
        lemma_release_siblings(reported, inputs, k);
        assert(inputs[i].txid == id);
    }
}

proof fn lemma_release_len(store: StoreView, utxos: Seq<Utxo>)
    ensures
        release(store, utxos).funding.len() == store.funding.len(),
    decreases utxos.len(),
{
    if utxos.len() > 0 {
        lemma_release_len(store, utxos.drop_last());
    }
}

/// An RBF that failed keeps what it inherited claimed, for the speedup that it was to replace: only what
/// it claimed itself is given back.
pub proof fn law_failed_rbf_keeps_inherited_claims(
    store: StoreView,
    tx: CoordinatedTxView,
    height: BlockHeight,
    funding_missing: bool,
    id: Txid,
)
    requires
        store.is_keyed(),
        store.txs.contains_key(id),
        tx.kind matches TxKindView::Speedup(SpeedupKindView::RBF { new_funding_inputs, .. })
            && forall|i: int| 0 <= i < new_funding_inputs.len() ==> (#[trigger] new_funding_inputs[i]).txid != id,
    ensures
        ({
            let after = store.settle_failed(tx, height, funding_missing);
            after.txs.contains_key(id) && after.txs[id].funding_info() == store.txs[id].funding_info()
        }),
{
    if let TxKindView::Speedup(SpeedupKindView::RBF { replaces, new_funding_inputs, .. }) = tx.kind {
        let reported = store.settle(tx.txid, TransactionState::Failed, height).report(
            tx.dispatch_error(),
        );
        assert(reported.is_keyed());
        lemma_release(reported, new_funding_inputs, id);
        assert(!names(new_funding_inputs, reported.txs[id])) by {
            assert(reported.txs[id].txid == id);
        }
        let freed = release(reported, new_funding_inputs);
        let after = store.settle_failed(tx, height, funding_missing);
        assert(after.txs == freed.unmark_replaced(replaces).txs);
        assert(freed.txs[id] == reported.txs[id]);
        assert(reported.txs[id].funding_info() == store.txs[id].funding_info());
        if freed.txs.contains_key(replaces) && freed.txs[replaces].is_speedup() && replaces == id {
            assert(with_replaced_by(freed.txs[id], None).funding_info() == freed.txs[id].funding_info());
        }
    }
}

/// The speedup that a failed RBF was to replace is live again: it is no longer marked as replaced.
pub proof fn law_failed_rbf_revives_its_predecessor(
    store: StoreView,
    tx: CoordinatedTxView,
    height: BlockHeight,
    funding_missing: bool,
    id: Txid,
)
    requires
        store.is_keyed(),
        tx.is_rbf_of(id),
        store.txs.contains_key(id),
        store.txs[id].is_speedup(),
    ensures
        ({
            let after = store.settle_failed(tx, height, funding_missing);
            after.txs.contains_key(id) && after.txs[id].is_speedup()
                && after.txs[id].speedup().context().replaced_by is None
        }),
{
    if let TxKindView::Speedup(SpeedupKindView::RBF { new_funding_inputs, .. }) = tx.kind {
        let reported = store.settle(tx.txid, TransactionState::Failed, height).report(
            tx.dispatch_error(),
        );
        assert(reported.is_keyed());
        lemma_release(reported, new_funding_inputs, id);
        let freed = release(reported, new_funding_inputs);
        assert(freed.txs[id].is_speedup());
        assert(store.settle_failed(tx, height, funding_missing).txs == freed.unmark_replaced(id).txs);
    }
}

/// The protocol parents of a CPFP that failed for want of funding wait for another one.
pub proof fn law_parents_of_a_lost_cpfp_wait_again(
    store: StoreView,
    tx: CoordinatedTxView,
    height: BlockHeight,
    parent: Txid,
)
    requires
        store.is_keyed(),
        tx.kind matches TxKindView::Speedup(SpeedupKindView::CPFP { parents, .. }) && parents.contains(
            parent,
        ),
        store.txs.contains_key(parent),
        store.txs[parent].kind is NeedsSpeedup,
    ensures
        store.settle_failed(tx, height, true).pending.contains(parent),
{
    if let TxKindView::Speedup(SpeedupKindView::CPFP { parents, context }) = tx.kind {
        let reported = store.settle(tx.txid, TransactionState::Failed, height).report(
            tx.dispatch_error(),
        );
        assert(reported.is_keyed());
        lemma_release(reported, context.funding_inputs, parent);
        let released = release(reported, context.funding_inputs);
        let protocol = released.is_protocol_parent();
        assert(protocol(parent));
        lemma_filter_members(parents, protocol);
        let again = parents.filter(protocol);
        assert(again.contains(parent));
        let absent = not_listed(released.pending);
        lemma_filter_members(again, absent);
        let after = store.settle_failed(tx, height, true);
        assert(after.pending == again.filter(absent) + released.pending);
        if released.pending.contains(parent) {
            let k = choose|k: int| 0 <= k < released.pending.len() && released.pending[k] == parent;
            assert(after.pending[again.filter(absent).len() + k] == parent);
        } else {
            assert(again.filter(absent).contains(parent));
            let k = choose|k: int|
                0 <= k < again.filter(absent).len() && again.filter(absent)[k] == parent;
            assert(after.pending[k] == parent);
        }
    }
}

// Final speedups

proof fn lemma_filter_keeps_prefix<A>(ids: Seq<A>, p: spec_fn(A) -> bool, n: int)
    requires
        0 <= n <= ids.len(),
        forall|i: int| 0 <= i < n ==> p(#[trigger] ids[i]),
    ensures
        ids.filter(p).len() >= n,
        ids.filter(p).take(n) == ids.take(n),
    decreases ids.len(),
{
    reveal(Seq::filter);
    if n < ids.len() {
        let rest = ids.drop_last();
        assert forall|i: int| 0 <= i < n implies p(#[trigger] rest[i]) by {
            assert(p(ids[i]));
        }
        lemma_filter_keeps_prefix(rest, p, n);
        assert(ids.filter(p).take(n) =~= rest.filter(p).take(n));
        assert(rest.take(n) =~= ids.take(n));
    } else {
        lemma_filter_all(ids, p);
    }
}

/// A final speedup takes the place of the first queue entry that funded it; the entries before it stay
/// where they are, it leaves the speedup list, and no other entry that funded it is left.
pub proof fn law_final_speedup_takes_its_place_in_the_queue(store: StoreView, id: Txid, place: int)
    requires
        store.txs.contains_key(id),
        store.txs[id].is_speedup(),
        store.is_first_spent(store.txs[id].speedup().context().funding_inputs, place),
    ensures
        ({
            let after = store.replace_funding(id);
            &&& after.funding.len() > place
            &&& after.funding[place] == FundingEntry::Record(id)
            &&& forall|q: int| 0 <= q < place ==> #[trigger] after.funding[q] == store.funding[q]
            &&& !after.speedups.contains(id)
            &&& forall|k: int|
                0 <= k < after.funding.len() && k != place ==> !store.funds(
                    #[trigger] after.funding[k],
                    store.txs[id].speedup().context().funding_inputs,
                )
        }),
{
    let inputs = store.txs[id].speedup().context().funding_inputs;
    let spends = store.is_spent_by(inputs);
    let rest = store.is_not_spent_by(inputs);
    let spent = store.funding.filter(spends);
    let kept = store.funding.filter(rest);
    lemma_filter_members(store.funding, spends);
    assert(store.funding.contains(store.funding[place]));
    assert(spent.contains(store.funding[place]));
    let first = store.first_spent(inputs);
    assert(store.is_first_spent(inputs, first));
    if first < place {
        assert(!store.funds(store.funding[first], inputs));
    }
    if place < first {
        assert(!store.funds(store.funding[place], inputs));
    }
    lemma_filter_keeps_prefix(store.funding, rest, place);
    let after = store.replace_funding(id);
    assert(after.funding == kept.insert(place, FundingEntry::Record(id)));
    lemma_filter_members(store.funding, rest);
    assert forall|k: int| 0 <= k < after.funding.len() && k != place implies !store.funds(
        #[trigger] after.funding[k],
        inputs,
    ) by {
        let m = if k < place { k } else { k - 1 };
        assert(kept.contains(kept[m]));
        assert(rest(kept[m]));
    }
    assert forall|q: int| 0 <= q < place implies #[trigger] after.funding[q] == store.funding[q] by {
        assert(kept.take(place)[q] == store.funding.take(place)[q]);
    }
    lemma_filter_members(without_all(store.speedups, record_txids(spent).to_set()), other_than(id));
}

// Saving and restoring

/// Restoring the saved records gives back the same records, so that a restart loses nothing.
pub proof fn law_restore_gives_back_the_records(
    txs: Map<Txid, CoordinatedTxView>,
    saved: Seq<CoordinatedTxView>,
)
    requires
        lists_selected(saved, txs, any_record()),
        forall|id: Txid| #[trigger] txs.contains_key(id) ==> txs[id].txid == id,
    ensures
        by_txid(saved) == txs,
{
    lemma_by_txid(saved);
    assert forall|id: Txid| by_txid(saved).contains_key(id) <==> txs.contains_key(id) by {
        if txs.contains_key(id) {
            assert(any_record()(txs[id]));
            let i = choose|i: int| 0 <= i < saved.len() && #[trigger] saved[i] == txs[id];
            assert(saved[i].txid == id);
        }
        if by_txid(saved).contains_key(id) {
            let i = choose|i: int| 0 <= i < saved.len() && (#[trigger] saved[i]).txid == id;
            assert(txs.contains_key(saved[i].txid));
        }
    }
    assert forall|id: Txid| by_txid(saved).contains_key(id) implies by_txid(saved)[id] == txs[id] by {
        let i = choose|i: int| 0 <= i < saved.len() && (#[trigger] saved[i]).txid == id;
        assert(txs[saved[i].txid] == saved[i]);
        assert(by_txid(saved)[saved[i].txid] == saved[i]);
    }
    assert(by_txid(saved) =~= txs);
}

/// Restoring a saved queue gives back the same queue.
pub proof fn law_restore_gives_back_the_queue(queue: Seq<FundingEntry>)
    requires
        siblings_differ(queue),
    ensures
        listed_once(queue) == queue,
{
    lemma_listed_once(queue);
}

proof fn lemma_by_txid(records: Seq<CoordinatedTxView>)
    requires
        forall|i: int, j: int|
            0 <= i < j < records.len() ==> (#[trigger] records[i]).txid != (#[trigger] records[j]).txid,
    ensures
        forall|id: Txid| #[trigger]
            by_txid(records).contains_key(id) <==> exists|i: int|
                0 <= i < records.len() && (#[trigger] records[i]).txid == id,
        forall|i: int|
            0 <= i < records.len() ==> by_txid(records)[(#[trigger] records[i]).txid] == records[i],
    decreases records.len(),
{
    if records.len() > 0 {
        let rest = records.drop_last();
        assert forall|i: int, j: int| 0 <= i < j < rest.len() implies (#[trigger] rest[i]).txid != (
        #[trigger] rest[j]).txid by {
            assert(records[i].txid != records[j].txid);
        }
        lemma_by_txid(rest);
        assert forall|id: Txid| #[trigger] by_txid(records).contains_key(id) <==> exists|i: int|
            0 <= i < records.len() && (#[trigger] records[i]).txid == id by {
            if by_txid(rest).contains_key(id) {
                let i = choose|i: int| 0 <= i < rest.len() && (#[trigger] rest[i]).txid == id;
                assert(records[i].txid == id);
            }
            assert(records[records.len() - 1].txid == records.last().txid);
            if exists|i: int| 0 <= i < records.len() && (#[trigger] records[i]).txid == id {
                let i = choose|i: int| 0 <= i < records.len() && (#[trigger] records[i]).txid == id;
                if i < rest.len() {
                    assert(rest[i].txid == id);
                }
            }
        }
        assert forall|i: int| 0 <= i < records.len() implies by_txid(records)[(
        #[trigger] records[i]).txid] == records[i] by {
            if i < rest.len() {
                assert(rest[i] == records[i]);
                assert(records[i].txid != records[records.len() - 1].txid);
            }
        }
    }
}

} // verus!
