use crate::model::{
    entry_txid, find_first, find_last, has_output, is_output, listed_once, lists_selected, lookup,
    present, record_txids, same_output, siblings_differ, with_spent, StoreView,
};
use crate::primitives::Txid;
use crate::types::{CoordinatedTxView, FundingEntry, TxKindView};
use vstd::prelude::*;

verus! {

/// One more element decides what a filter adds at the end.
pub proof fn lemma_filter_step<A>(s: Seq<A>, p: spec_fn(A) -> bool, i: int)
    requires
        0 <= i < s.len(),
    ensures
        s.take(i + 1).filter(p) == if p(s[i]) {
            s.take(i).filter(p).push(s[i])
        } else {
            s.take(i).filter(p)
        },
{
    reveal(Seq::filter);
    assert(s.take(i + 1).drop_last() =~= s.take(i));
    assert(s.take(i + 1).last() == s[i]);
}

/// One more element decides what a filtering map adds at the end.
pub proof fn lemma_filter_map_step<A, B>(s: Seq<A>, f: spec_fn(A) -> Option<B>, i: int)
    requires
        0 <= i < s.len(),
    ensures
        s.take(i + 1).filter_map(f) == match f(s[i]) {
            Some(b) => s.take(i).filter_map(f).push(b),
            None => s.take(i).filter_map(f),
        },
{
    s.lemma_filter_map_take_succ(f, i);
}

/// Filtering keeps exactly the members that satisfy the predicate.
pub proof fn lemma_filter_members<A>(s: Seq<A>, p: spec_fn(A) -> bool)
    ensures
        forall|x: A| #[trigger] s.filter(p).contains(x) <==> s.contains(x) && p(x),
    decreases s.len(),
{
    reveal(Seq::filter);
    if s.len() > 0 {
        let rest = s.drop_last();
        lemma_filter_members(rest, p);
        assert(s =~= rest.push(s.last()));
        assert forall|x: A| #[trigger] s.filter(p).contains(x) <==> s.contains(x) && p(x) by {
            if s.contains(x) && p(x) && x != s.last() {
                let k = choose|k: int| 0 <= k < s.len() && s[k] == x;
                assert(rest[k] == x);
                assert(rest.filter(p).contains(x));
                let m = choose|m: int| 0 <= m < rest.filter(p).len() && rest.filter(p)[m] == x;
                assert(s.filter(p)[m] == x);
            }
            if s.contains(x) && p(x) && x == s.last() {
                assert(s.filter(p)[s.filter(p).len() - 1] == x);
            }
            if s.filter(p).contains(x) {
                let k = choose|k: int| 0 <= k < s.filter(p).len() && s.filter(p)[k] == x;
                if k < rest.filter(p).len() {
                    assert(rest.filter(p)[k] == x);
                    assert(rest.filter(p).contains(x));
                    assert(rest.contains(x));
                    let m = choose|m: int| 0 <= m < rest.len() && rest[m] == x;
                    assert(s[m] == x);
                } else {
                    assert(x == s.last());
                    assert(s[s.len() - 1] == x);
                }
            }
        }
    }
}

/// Filtering twice is filtering by both predicates.
pub proof fn lemma_filter_twice<A>(
    s: Seq<A>,
    p: spec_fn(A) -> bool,
    q: spec_fn(A) -> bool,
    both: spec_fn(A) -> bool,
)
    requires
        forall|x: A| #[trigger] both(x) <==> p(x) && q(x),
    ensures
        s.filter(p).filter(q) == s.filter(both),
    decreases s.len(),
{
    reveal(Seq::filter);
    if s.len() > 0 {
        let rest = s.drop_last();
        lemma_filter_twice(rest, p, q, both);
        if p(s.last()) {
            assert(rest.filter(p).push(s.last()).drop_last() =~= rest.filter(p));
        }
        assert(both(s.last()) <==> p(s.last()) && q(s.last()));
    }
}

/// A filter that every member satisfies changes nothing.
pub proof fn lemma_filter_all<A>(s: Seq<A>, p: spec_fn(A) -> bool)
    requires
        forall|i: int| 0 <= i < s.len() ==> p(#[trigger] s[i]),
    ensures
        s.filter(p) == s,
    decreases s.len(),
{
    reveal(Seq::filter);
    if s.len() > 0 {
        let rest = s.drop_last();
        assert forall|i: int| 0 <= i < rest.len() implies p(#[trigger] rest[i]) by {
            assert(rest[i] == s[i]);
        }
        lemma_filter_all(rest, p);
        assert(p(s[s.len() - 1]));
        assert(rest.push(s.last()) =~= s);
    }
}

/// One more element decides what is found first.
pub proof fn lemma_find_first_step<A>(s: Seq<A>, p: spec_fn(A) -> bool, i: int)
    requires
        0 <= i < s.len(),
    ensures
        find_first(s.take(i + 1), p) == match find_first(s.take(i), p) {
            Some(x) => Some(x),
            None => if p(s[i]) {
                Some(s[i])
            } else {
                None
            },
        },
{
    assert(s.take(i + 1).drop_last() =~= s.take(i));
    assert(s.take(i + 1).last() == s[i]);
}

/// What is found first in a prefix is found first.
pub proof fn lemma_find_first_prefix<A>(s: Seq<A>, p: spec_fn(A) -> bool, i: int)
    requires
        0 <= i <= s.len(),
        find_first(s.take(i), p) is Some,
    ensures
        find_first(s, p) == find_first(s.take(i), p),
    decreases s.len(),
{
    if i == s.len() {
        assert(s.take(i) =~= s);
    } else {
        assert(s.drop_last().take(i) =~= s.take(i));
        lemma_find_first_prefix(s.drop_last(), p, i);
    }
}

/// What is found first is a member that satisfies the predicate, and when nothing is found no member
/// does.
pub proof fn lemma_find_first_sound<A>(s: Seq<A>, p: spec_fn(A) -> bool)
    ensures
        match find_first(s, p) {
            Some(x) => s.contains(x) && p(x),
            None => forall|i: int| 0 <= i < s.len() ==> !p(#[trigger] s[i]),
        },
    decreases s.len(),
{
    if s.len() > 0 {
        let rest = s.drop_last();
        lemma_find_first_sound(rest, p);
        match find_first(rest, p) {
            Some(x) => {
                let k = choose|k: int| 0 <= k < rest.len() && rest[k] == x;
                assert(s[k] == x);
            },
            None => {
                assert(s[s.len() - 1] == s.last());
                assert forall|i: int| 0 <= i < s.len() && !p(s.last()) implies !p(#[trigger] s[i]) by {
                    if i < rest.len() {
                        assert(!p(rest[i]));
                    }
                }
            },
        }
    }
}

/// One element from the end decides what is found last.
pub proof fn lemma_find_last_step<A>(s: Seq<A>, p: spec_fn(A) -> bool, i: int)
    requires
        0 <= i < s.len(),
    ensures
        find_last(s.take(i + 1), p) == if p(s[i]) {
            Some(s[i])
        } else {
            find_last(s.take(i), p)
        },
{
    assert(s.take(i + 1).drop_last() =~= s.take(i));
    assert(s.take(i + 1).last() == s[i]);
}

/// What is found last is a member that satisfies the predicate, and when nothing is found no member
/// does.
pub proof fn lemma_find_last_sound<A>(s: Seq<A>, p: spec_fn(A) -> bool)
    ensures
        match find_last(s, p) {
            Some(x) => s.contains(x) && p(x),
            None => forall|i: int| 0 <= i < s.len() ==> !p(#[trigger] s[i]),
        },
    decreases s.len(),
{
    if s.len() > 0 {
        assert(s[s.len() - 1] == s.last());
        if !p(s.last()) {
            let rest = s.drop_last();
            lemma_find_last_sound(rest, p);
            match find_last(rest, p) {
                Some(x) => {
                    let k = choose|k: int| 0 <= k < rest.len() && rest[k] == x;
                    assert(s[k] == x);
                },
                None => {
                    assert forall|i: int| 0 <= i < s.len() implies !p(#[trigger] s[i]) by {
                        if i < rest.len() {
                            assert(!p(rest[i]));
                        }
                    }
                },
            }
        }
    }
}

/// Filtering keeps the txids of records apart.
pub proof fn lemma_filter_unique(s: Seq<CoordinatedTxView>, p: spec_fn(CoordinatedTxView) -> bool)
    requires
        forall|i: int, j: int|
            0 <= i < j < s.len() ==> (#[trigger] s[i]).txid != (#[trigger] s[j]).txid,
    ensures
        forall|i: int, j: int|
            0 <= i < j < s.filter(p).len() ==> (#[trigger] s.filter(p)[i]).txid != (
            #[trigger] s.filter(p)[j]).txid,
    decreases s.len(),
{
    reveal(Seq::filter);
    if s.len() > 0 {
        let rest = s.drop_last();
        assert forall|i: int, j: int| 0 <= i < j < rest.len() implies (#[trigger] rest[i]).txid != (
        #[trigger] rest[j]).txid by {
            assert(s[i].txid != s[j].txid);
        }
        lemma_filter_unique(rest, p);
        lemma_filter_members(rest, p);
        if p(s.last()) {
            let kept = rest.filter(p);
            assert forall|i: int, j: int| 0 <= i < j < s.filter(p).len() implies (
            #[trigger] s.filter(p)[i]).txid != (#[trigger] s.filter(p)[j]).txid by {
                if j < kept.len() {
                    assert(kept[i].txid != kept[j].txid);
                } else {
                    assert(kept.contains(kept[i]));
                    let k = choose|k: int| 0 <= k < rest.len() && rest[k] == kept[i];
                    assert(s[k].txid != s[s.len() - 1].txid);
                }
            }
        }
    }
}

/// Filtering a listing of selected records narrows the selection.
pub proof fn lemma_narrow_selection(
    listing: Seq<CoordinatedTxView>,
    txs: Map<Txid, CoordinatedTxView>,
    keep: spec_fn(CoordinatedTxView) -> bool,
    p: spec_fn(CoordinatedTxView) -> bool,
)
    requires
        lists_selected(listing, txs, keep),
        forall|tx: CoordinatedTxView| #[trigger] p(tx) ==> keep(tx),
    ensures
        lists_selected(listing.filter(p), txs, p),
{
    let picked = listing.filter(p);
    lemma_filter_members(listing, p);
    lemma_filter_unique(listing, p);
    assert forall|i: int| 0 <= i < picked.len() implies txs.contains_key((#[trigger] picked[i]).txid)
        && txs[picked[i].txid] == picked[i] && p(picked[i]) by {
        assert(picked.contains(picked[i]));
        let k = choose|k: int| 0 <= k < listing.len() && listing[k] == picked[i];
        assert(txs.contains_key(listing[k].txid));
    }
    assert forall|id: Txid| #[trigger] txs.contains_key(id) && p(txs[id]) implies exists|i: int|
        0 <= i < picked.len() && #[trigger] picked[i] == txs[id] by {
        assert(keep(txs[id]));
        let k = choose|k: int| 0 <= k < listing.len() && #[trigger] listing[k] == txs[id];
        assert(listing.contains(txs[id]));
        assert(picked.contains(txs[id]));
        let i = choose|i: int| 0 <= i < picked.len() && picked[i] == txs[id];
        assert(picked[i] == txs[id]);
    }
}

/// A filtering map yields what it makes of the members.
pub proof fn lemma_filter_map_members<A, B>(s: Seq<A>, f: spec_fn(A) -> Option<B>)
    ensures
        forall|b: B| #[trigger]
            s.filter_map(f).contains(b) <==> exists|k: int| 0 <= k < s.len() && f(#[trigger] s[k]) == Some(b),
    decreases s.len(),
{
    let all = s.filter_map(f);
    if s.len() == 0 {
        assert(all =~= Seq::empty());
    } else {
        let rest = s.drop_last();
        let before = rest.filter_map(f);
        let n = s.len() - 1;
        lemma_filter_map_members(rest, f);
        lemma_filter_map_step(s, f, n);
        assert(s.take(s.len() as int) =~= s);
        assert(s.take(n) =~= rest);
        assert forall|b: B| #[trigger] all.contains(b) <==> exists|k: int|
            0 <= k < s.len() && f(#[trigger] s[k]) == Some(b) by {
            if before.contains(b) {
                let k = choose|k: int| 0 <= k < rest.len() && f(#[trigger] rest[k]) == Some(b);
                assert(f(s[k]) == Some(b));
                let m = choose|m: int| 0 <= m < before.len() && before[m] == b;
                assert(all[m] == b);
            }
            if exists|k: int| 0 <= k < s.len() && f(#[trigger] s[k]) == Some(b) {
                let k = choose|k: int| 0 <= k < s.len() && f(#[trigger] s[k]) == Some(b);
                if k < n {
                    assert(f(rest[k]) == Some(b));
                    assert(before.contains(b));
                } else {
                    assert(all[before.len() as int] == b);
                }
            }
            if all.contains(b) && !before.contains(b) {
                let m = choose|m: int| 0 <= m < all.len() && all[m] == b;
                if m < before.len() {
                    assert(before[m] == b);
                }
                assert(f(s[n]) == Some(b));
            }
        }
    }
}

/// The records of a list are those of its members.
pub proof fn lemma_present_members(txs: Map<Txid, CoordinatedTxView>, ids: Seq<Txid>)
    ensures
        forall|x: CoordinatedTxView| #[trigger]
            present(txs, ids).contains(x) <==> exists|k: int|
                0 <= k < ids.len() && txs.contains_key(#[trigger] ids[k]) && txs[ids[k]] == x,
{
    let find = lookup(txs);
    lemma_filter_map_members(ids, find);
    assert forall|x: CoordinatedTxView| #[trigger] present(txs, ids).contains(x) <==> exists|k: int|
        0 <= k < ids.len() && txs.contains_key(#[trigger] ids[k]) && txs[ids[k]] == x by {
        if present(txs, ids).contains(x) {
            let k = choose|k: int| 0 <= k < ids.len() && find(#[trigger] ids[k]) == Some(x);
            assert(txs.contains_key(ids[k]) && txs[ids[k]] == x);
        }
        if exists|k: int| 0 <= k < ids.len() && txs.contains_key(#[trigger] ids[k]) && txs[ids[k]] == x {
            let k = choose|k: int|
                0 <= k < ids.len() && txs.contains_key(#[trigger] ids[k]) && txs[ids[k]] == x;
            assert(find(ids[k]) == Some(x));
        }
    }
}

/// The txids of a queue are those of the records in it.
pub proof fn lemma_record_txids_members(queue: Seq<FundingEntry>)
    ensures
        forall|id: Txid| #[trigger]
            record_txids(queue).contains(id) <==> queue.contains(FundingEntry::Record(id)),
{
    let f = entry_txid();
    lemma_filter_map_members(queue, f);
    assert forall|id: Txid| #[trigger] record_txids(queue).contains(id) <==> queue.contains(
        FundingEntry::Record(id),
    ) by {
        if record_txids(queue).contains(id) {
            let k = choose|k: int| 0 <= k < queue.len() && f(#[trigger] queue[k]) == Some(id);
            assert(queue[k] == FundingEntry::Record(id));
        }
        if queue.contains(FundingEntry::Record(id)) {
            let k = choose|k: int| 0 <= k < queue.len() && queue[k] == FundingEntry::Record(id);
            assert(f(queue[k]) == Some(id));
        }
    }
}

/// A filter keeps the siblings apart.
pub proof fn lemma_filter_keeps_siblings_apart(queue: Seq<FundingEntry>, p: spec_fn(FundingEntry) -> bool)
    requires
        siblings_differ(queue),
    ensures
        siblings_differ(queue.filter(p)),
    decreases queue.len(),
{
    reveal(Seq::filter);
    if queue.len() > 0 {
        let rest = queue.drop_last();
        assert forall|i: int, j: int| 0 <= i < j < rest.len() implies !same_output(
            #[trigger] rest[i],
            #[trigger] rest[j],
        ) by {
            assert(!same_output(queue[i], queue[j]));
        }
        lemma_filter_keeps_siblings_apart(rest, p);
        lemma_filter_members(rest, p);
        let kept = rest.filter(p);
        let all = queue.filter(p);
        assert forall|i: int, j: int| 0 <= i < j < all.len() implies !same_output(
            #[trigger] all[i],
            #[trigger] all[j],
        ) by {
            if j < kept.len() {
                assert(!same_output(kept[i], kept[j]));
            } else {
                assert(kept.contains(kept[i]));
                let k = choose|k: int| 0 <= k < rest.len() && rest[k] == kept[i];
                assert(!same_output(queue[k], queue[queue.len() - 1]));
            }
        }
    }
}

/// An entry at the end that is no sibling for an output in the queue keeps the siblings apart.
pub proof fn lemma_added_sibling_differs(queue: Seq<FundingEntry>, entry: FundingEntry)
    requires
        siblings_differ(queue),
        entry matches FundingEntry::Sibling(data) ==> !has_output(queue, data.utxo.txid, data.utxo.vout),
    ensures
        siblings_differ(queue.push(entry)),
{
    let after = queue.push(entry);
    assert forall|i: int, j: int| 0 <= i < j < after.len() implies !same_output(
        #[trigger] after[i],
        #[trigger] after[j],
    ) by {
        if j < queue.len() {
            assert(!same_output(queue[i], queue[j]));
        } else if let FundingEntry::Sibling(data) = entry {
            assert(!is_output(queue[i], data.utxo.txid, data.utxo.vout));
        }
    }
}

/// Entries that stay what they are, up to amounts, keys and marks, stay apart.
pub proof fn lemma_relabelled_siblings_differ(queue: Seq<FundingEntry>, after: Seq<FundingEntry>)
    requires
        siblings_differ(queue),
        queue.len() == after.len(),
        forall|i: int|
            0 <= i < queue.len() ==> match #[trigger] after[i] {
                FundingEntry::Record(_) => true,
                FundingEntry::Sibling(data) => is_output(queue[i], data.utxo.txid, data.utxo.vout),
            },
    ensures
        siblings_differ(after),
{
    assert forall|i: int, j: int| 0 <= i < j < after.len() implies !same_output(
        #[trigger] after[i],
        #[trigger] after[j],
    ) by {
        assert(!same_output(queue[i], queue[j]));
    }
}

/// A record that is put into the queue keeps the siblings apart.
pub proof fn lemma_inserted_record_differs(queue: Seq<FundingEntry>, place: int, id: Txid)
    requires
        siblings_differ(queue),
        0 <= place <= queue.len(),
    ensures
        siblings_differ(queue.insert(place, FundingEntry::Record(id))),
{
    let after = queue.insert(place, FundingEntry::Record(id));
    assert forall|i: int, j: int| 0 <= i < j < after.len() implies !same_output(
        #[trigger] after[i],
        #[trigger] after[j],
    ) by {
        if i != place && j != place {
            let a = if i < place { i } else { i - 1 };
            let b = if j < place { j } else { j - 1 };
            assert(!same_output(queue[a], queue[b]));
        }
    }
}

/// A queue in which the siblings differ is listed once.
pub proof fn lemma_listed_once(queue: Seq<FundingEntry>)
    requires
        siblings_differ(queue),
    ensures
        listed_once(queue) == queue,
    decreases queue.len(),
{
    if queue.len() > 0 {
        let rest = queue.drop_last();
        assert forall|i: int, j: int| 0 <= i < j < rest.len() implies !same_output(
            #[trigger] rest[i],
            #[trigger] rest[j],
        ) by {
            assert(!same_output(queue[i], queue[j]));
        }
        lemma_listed_once(rest);
        if let FundingEntry::Sibling(data) = queue.last() {
            if has_output(rest, data.utxo.txid, data.utxo.vout) {
                let i = choose|i: int|
                    0 <= i < rest.len() && is_output(#[trigger] rest[i], data.utxo.txid, data.utxo.vout);
                assert(same_output(queue[i], queue[queue.len() - 1]));
            }
        }
        assert(rest.push(queue.last()) =~= queue);
    }
}

/// Setting a record that holds an output of its own transaction keeps the ownership of outputs.
pub proof fn lemma_put_keeps_ownership(store: StoreView, tx: CoordinatedTxView)
    requires
        tx.owns_output(),
    ensures
        store.put(tx).keeps_ownership(store),
        store.put_speedup(tx).keeps_ownership(store),
{
    if store.owns_outputs() {
        assert forall|id: Txid| #[trigger] store.put(tx).txs.contains_key(id) implies store.put(
            tx,
        ).txs[id].owns_output() by {
            assert(id == tx.txid || store.txs.contains_key(id));
        }
    }
}

/// Setting or clearing a claim mark keeps the ownership of outputs.
pub proof fn lemma_mark_keeps_ownership(store: StoreView, id: Txid, vout: u32, spent: bool)
    ensures
        store.mark_output(id, vout, spent).keeps_ownership(store),
        store.set_spent(id, spent).keeps_ownership(store),
{
    if store.owns_outputs() && store.txs.contains_key(id) {
        match store.txs[id].kind {
            TxKindView::Funding(_) => {},
            TxKindView::Speedup(_) => {},
            _ => {},
        }
        assert(store.txs[id].owns_output());
        lemma_put_keeps_ownership(store, with_spent(store.txs[id], spent));
    }
}

} // verus!
