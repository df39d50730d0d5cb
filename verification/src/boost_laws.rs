use crate::config::{FeeSettings, SpeedupSettings};
use crate::dispatcher::{batch_weight, joined, splits_greedily};
use crate::lemmas::{
    lemma_filter_map_members, lemma_filter_map_step, lemma_filter_members, lemma_filter_step,
};
use crate::model::{find_last, StoreView};
use crate::primitives::{tx_weight, BlockHeight, Txid};
use crate::speedup_builder::{first_batch, lemma_first_batch, protocol_entry};
use crate::speedup_model::{
    any_waiting, boost_target, is_in_flight, is_live, live_speedups, must_replace, waits,
    ParentEntry,
};
use crate::types::{CoordinatedTxView, SpeedupKindView, TxKindView};
use vstd::prelude::*;

verus! {

// Live speedups

/// An element that satisfies the predicate, with none after it that does, is the last one.
pub proof fn lemma_last_is_found<A>(s: Seq<A>, p: spec_fn(A) -> bool, i: int)
    requires
        0 <= i < s.len(),
        p(s[i]),
        forall|j: int| i < j < s.len() ==> !p(#[trigger] s[j]),
    ensures
        find_last(s, p) == Some(s[i]),
    decreases s.len(),
{
    assert(s[s.len() - 1] == s.last());
    if i < s.len() - 1 {
        let rest = s.drop_last();
        assert forall|j: int| i < j < rest.len() implies !p(#[trigger] rest[j]) by {
            assert(!p(s[j]));
        }
        lemma_last_is_found(rest, p, i);
    }
}

/// A speedup is superseded exactly when its own mark says so or when an RBF on the list, one that has not
/// failed, replaces it.
pub proof fn law_superseded_by_mark_or_replacement(
    tx: CoordinatedTxView,
    all: Seq<CoordinatedTxView>,
    i: int,
)
    requires
        tx.kind is Speedup,
    ensures
        tx.kind->Speedup_0.context().replaced_by is Some ==> tx.has_live_replacement(all),
        0 <= i < all.len() && !(all[i].state is Failed) && (
        all[i].kind matches TxKindView::Speedup(SpeedupKindView::RBF { replaces, .. }) && replaces
            == tx.txid) ==> tx.has_live_replacement(all),
        tx.kind->Speedup_0.context().replaced_by is None && (forall|j: int|
            0 <= j < all.len() ==> (#[trigger] all[j]).state is Failed || !(
            all[j].kind matches TxKindView::Speedup(SpeedupKindView::RBF { replaces, .. }) && replaces
                == tx.txid)) ==> !tx.has_live_replacement(all),
{
    if 0 <= i < all.len() && !(all[i].state is Failed) && all[i].is_rbf_of(tx.txid) {
        assert(tx.has_live_replacement(all));
    }
}

/// The listed speedup `i` is in the mempool, and nothing replaces it: neither its mark nor a listed RBF.
pub open spec fn is_live_at(all: Seq<CoordinatedTxView>, i: int) -> bool {
    &&& 0 <= i < all.len()
    &&& all[i].state is InMempool
    &&& all[i].kind matches TxKindView::Speedup(kind) ==> match kind {
        SpeedupKindView::CPFP { context, .. } => context.replaced_by is None,
        SpeedupKindView::RBF { context, .. } => context.replaced_by is None,
    }
    &&& forall|j: int|
        0 <= j < all.len() ==> (#[trigger] all[j]).state is Failed || !(
        all[j].kind matches TxKindView::Speedup(SpeedupKindView::RBF { replaces, .. }) && replaces
            == all[i].txid)
}

/// What `is_live` says of a listed speedup.
pub proof fn lemma_live_at(all: Seq<CoordinatedTxView>, i: int)
    requires
        0 <= i < all.len(),
    ensures
        is_live(all)(all[i]) <==> is_live_at(all, i),
{
    if all[i].has_live_replacement(all) && is_live_at(all, i) {
        let j = choose|j: int|
            0 <= j < all.len() && !((#[trigger] all[j]).state is Failed) && all[j].is_rbf_of(all[i].txid);
        assert(all[j].state is Failed || !all[j].is_rbf_of(all[i].txid));
    }
    if is_live(all)(all[i]) {
        assert forall|j: int| 0 <= j < all.len() implies (#[trigger] all[j]).state is Failed || !(
        all[j].kind matches TxKindView::Speedup(SpeedupKindView::RBF { replaces, .. }) && replaces
            == all[i].txid) by {
            if !(all[j].state is Failed) && all[j].is_rbf_of(all[i].txid) {
                assert(all[i].has_live_replacement(all));
            }
        }
    }
}

/// The chain that a new speedup has to lift is made of all the speedups that are live in the mempool, CPFP
/// and RBF alike, and of no others.
pub proof fn law_chain_is_all_that_is_live(all: Seq<CoordinatedTxView>, i: int)
    requires
        0 <= i < all.len(),
    ensures
        live_speedups(all).contains(all[i]) <==> is_live_at(all, i),
{
    lemma_filter_members(all, is_live(all));
    assert(all.contains(all[i]));
    lemma_live_at(all, i);
}

// Boosting

/// A stale speedup is boosted. When no speedup waits to be dispatched, and the last one that is live in the
/// mempool, a CPFP or an RBF, was broadcast the configured number of blocks ago and pays less than the
/// maximal rate, that one is the one to boost.
pub proof fn law_stale_speedups_are_boosted(
    all: Seq<CoordinatedTxView>,
    i: int,
    height: BlockHeight,
    speedup: SpeedupSettings,
    fee: FeeSettings,
    broadcast: BlockHeight,
)
    requires
        is_live_at(all, i),
        all[i].kind is Speedup,
        forall|j: int| i < j < all.len() ==> !#[trigger] is_live_at(all, j),
        forall|j: int| 0 <= j < all.len() ==> !((#[trigger] all[j]).state is ToDispatch),
        all[i].broadcast_block_height == Some(broadcast),
        height >= broadcast + speedup.min_blocks_before_resend_speedup,
        all[i].fee_info.package_fee_rate < fee.max_feerate_sat_vb,
    ensures
        boost_target(all, height, speedup, fee) == Some(all[i]),
{
    lemma_live_at(all, i);
    assert forall|j: int| i < j < all.len() implies !is_live(all)(#[trigger] all[j]) by {
        lemma_live_at(all, j);
        assert(!is_live_at(all, j));
    }
    lemma_last_is_found(all, is_live(all), i);
}

/// Nothing else is boosted: not while a speedup waits, not one that a later live speedup builds on, not one
/// that was never broadcast or too recently, and not one that pays the maximal rate.
pub proof fn law_only_stale_speedups_are_boosted(
    all: Seq<CoordinatedTxView>,
    height: BlockHeight,
    speedup: SpeedupSettings,
    fee: FeeSettings,
    target: CoordinatedTxView,
)
    requires
        boost_target(all, height, speedup, fee) == Some(target),
        speedup.min_blocks_before_resend_speedup > 0,
    ensures
        forall|j: int| 0 <= j < all.len() ==> !((#[trigger] all[j]).state is ToDispatch),
        exists|i: int|
            is_live_at(all, i) && #[trigger] all[i] == target && forall|j: int|
                i < j < all.len() ==> !#[trigger] is_live_at(all, j),
        target.kind is Speedup,
        target.broadcast_block_height matches Some(broadcast) && height >= broadcast
            + speedup.min_blocks_before_resend_speedup,
        target.fee_info.package_fee_rate < fee.max_feerate_sat_vb,
{
    let i = lemma_place_of_last(all, is_live(all));
    lemma_live_at(all, i);
    assert(all[i] == target);
    assert forall|j: int| i < j < all.len() implies !#[trigger] is_live_at(all, j) by {
        assert(!is_live(all)(all[j]));
        lemma_live_at(all, j);
    }
}

proof fn lemma_place_of_last<A>(s: Seq<A>, p: spec_fn(A) -> bool) -> (i: int)
    requires
        find_last(s, p) is Some,
    ensures
        0 <= i < s.len(),
        p(s[i]),
        find_last(s, p) == Some(s[i]),
        forall|j: int| i < j < s.len() ==> !p(#[trigger] s[j]),
    decreases s.len(),
{
    if p(s.last()) {
        s.len() - 1
    } else {
        let rest = s.drop_last();
        let i = lemma_place_of_last(rest, p);
        assert forall|j: int| i < j < s.len() implies !p(#[trigger] s[j]) by {
            if j < rest.len() {
                assert(!p(rest[j]));
            } else {
                assert(s[j] == s.last());
            }
        }
        i
    }
}

/// A speedup waits exactly when one on the list is to be dispatched.
pub proof fn law_waiting_is_being_dispatched(all: Seq<CoordinatedTxView>, i: int)
    requires
        0 <= i < all.len(),
    ensures
        all[i].state is ToDispatch ==> any_waiting(all),
        (forall|j: int| 0 <= j < all.len() ==> !((#[trigger] all[j]).state is ToDispatch)) ==> !any_waiting(
            all,
        ),
        all.filter(waits()).contains(all[i]) <==> all[i].state is ToDispatch,
{
    lemma_filter_members(all, waits());
    assert(all.contains(all[i]));
}

/// The speedups under review are those in the mempool or on chain that are not final, live or replaced.
pub proof fn law_speedups_in_flight_are_reviewed(all: Seq<CoordinatedTxView>, i: int)
    requires
        0 <= i < all.len(),
    ensures
        all.filter(is_in_flight()).contains(all[i]) <==> all[i].state is InMempool
            || all[i].state is Confirmed,
{
    lemma_filter_members(all, is_in_flight());
    assert(all.contains(all[i]));
}

/// Places of the list, in order.
pub open spec fn are_places(places: Seq<int>, len: nat) -> bool {
    &&& forall|k: int| 0 <= k < places.len() ==> 0 <= #[trigger] places[k] < len
    &&& forall|j: int, k: int| 0 <= j < k < places.len() ==> #[trigger] places[j] < #[trigger] places[k]
}

/// A boost replaces its predecessor exactly when the live speedups use up the slots, and is a CPFP on top
/// otherwise: as many live ones as there are slots are enough, and fewer are not.
pub proof fn law_boost_replaces_when_slots_run_out(
    all: Seq<CoordinatedTxView>,
    speedup: SpeedupSettings,
    places: Seq<int>,
)
    requires
        are_places(places, all.len()),
        forall|k: int| 0 <= k < places.len() ==> is_live_at(all, #[trigger] places[k]),
    ensures
        places.len() >= speedup.max_unconfirmed_speedups ==> must_replace(all, speedup),
        (forall|i: int| is_live_at(all, i) ==> #[trigger] places.contains(i)) && places.len()
            < speedup.max_unconfirmed_speedups ==> !must_replace(all, speedup),
{
    let live = is_live(all);
    assert forall|k: int| 0 <= k < places.len() implies live(all[#[trigger] places[k]]) by {
        lemma_live_at(all, places[k]);
    }
    lemma_filter_holds_places(all, live, places);
    if forall|i: int| is_live_at(all, i) ==> #[trigger] places.contains(i) {
        let found = lemma_filter_places(all, live);
        assert forall|k: int| 0 <= k < found.len() implies places.contains(#[trigger] found[k]) by {
            lemma_live_at(all, found[k]);
        }
        lemma_places_within(found, places, all.len() as int);
    }
}

/// A filter keeps at least the elements at the given places, when they satisfy the predicate.
pub proof fn lemma_filter_holds_places<A>(s: Seq<A>, p: spec_fn(A) -> bool, places: Seq<int>)
    requires
        are_places(places, s.len()),
        forall|k: int| 0 <= k < places.len() ==> p(s[#[trigger] places[k]]),
    ensures
        s.filter(p).len() >= places.len(),
    decreases s.len(),
{
    reveal(Seq::filter);
    if s.len() > 0 && places.len() > 0 {
        let rest = s.drop_last();
        let n = s.len() - 1;
        let before = if places.last() == n {
            places.drop_last()
        } else {
            places
        };
        assert forall|k: int| 0 <= k < before.len() implies 0 <= #[trigger] before[k] < rest.len() && p(
            rest[before[k]],
        ) by {
            assert(before[k] == places[k]);
            if k < places.len() - 1 {
                assert(places[k] < places[places.len() - 1]);
            }
            assert(p(s[places[k]]));
        }
        assert forall|j: int, k: int| 0 <= j < k < before.len() implies #[trigger] before[j]
            < #[trigger] before[k] by {
            assert(places[j] < places[k]);
        }
        lemma_filter_holds_places(rest, p, before);
        if places.last() == n {
            assert(p(s[places[places.len() - 1]]));
        }
    } else if s.len() == 0 && places.len() > 0 {
        assert(0 <= places[0] < s.len());
    }
}

/// The places of the elements that a filter keeps, in order.
pub proof fn lemma_filter_places<A>(s: Seq<A>, p: spec_fn(A) -> bool) -> (places: Seq<int>)
    ensures
        are_places(places, s.len()),
        places.len() == s.filter(p).len(),
        forall|k: int|
            0 <= k < places.len() ==> p(s[#[trigger] places[k]]) && s.filter(p)[k] == s[places[k]],
    decreases s.len(),
{
    reveal(Seq::filter);
    if s.len() == 0 {
        Seq::empty()
    } else {
        let rest = s.drop_last();
        let before = lemma_filter_places(rest, p);
        assert forall|k: int| 0 <= k < before.len() implies 0 <= #[trigger] before[k] < s.len() && p(
            s[before[k]],
        ) && s.filter(p)[k] == s[before[k]] by {
            assert(rest[before[k]] == s[before[k]]);
        }
        if p(s.last()) {
            let n = s.len() - 1;
            let places = before.push(n);
            assert forall|j: int, k: int| 0 <= j < k < places.len() implies #[trigger] places[j]
                < #[trigger] places[k] by {
                if k < before.len() {
                    assert(before[j] < before[k]);
                } else {
                    assert(before[j] < rest.len());
                }
            }
            assert forall|k: int| 0 <= k < places.len() implies 0 <= #[trigger] places[k] < s.len() && p(
                s[places[k]],
            ) && s.filter(p)[k] == s[places[k]] by {
                if k < before.len() {
                    assert(places[k] == before[k]);
                }
            }
            places
        } else {
            before
        }
    }
}

/// A filter keeps exactly the elements at the given places when these are all that satisfy the predicate.
pub proof fn lemma_filter_is_places<A>(s: Seq<A>, p: spec_fn(A) -> bool, places: Seq<int>)
    requires
        are_places(places, s.len()),
        forall|i: int| 0 <= i < s.len() ==> (p(#[trigger] s[i]) <==> places.contains(i)),
    ensures
        s.filter(p) == Seq::new(places.len(), |k: int| s[places[k]]),
    decreases s.len(),
{
    reveal(Seq::filter);
    if s.len() == 0 {
        if places.len() > 0 {
            assert(0 <= places[0] < s.len());
        }
        assert(s.filter(p) =~= Seq::new(places.len(), |k: int| s[places[k]]));
    } else {
        let rest = s.drop_last();
        let n = s.len() - 1;
        assert(s[n] == s.last());
        let before = if p(s.last()) {
            places.drop_last()
        } else {
            places
        };
        if p(s.last()) {
            assert(places.contains(n));
            let m = choose|m: int| 0 <= m < places.len() && places[m] == n;
            if m < places.len() - 1 {
                assert(places[m] < places[places.len() - 1]);
            }
        }
        assert forall|k: int| 0 <= k < before.len() implies 0 <= #[trigger] before[k] < rest.len() by {
            assert(before[k] == places[k]);
            assert(0 <= places[k] < s.len());
            if places[k] == n {
                assert(places.contains(n));
                assert(places[k] < places[places.len() - 1]);
            }
        }
        assert forall|j: int, k: int| 0 <= j < k < before.len() implies #[trigger] before[j]
            < #[trigger] before[k] by {
            assert(places[j] < places[k]);
        }
        assert forall|i: int| 0 <= i < rest.len() implies (p(#[trigger] rest[i]) <==> before.contains(i)) by {
            assert(rest[i] == s[i]);
            if places.contains(i) {
                let m = choose|m: int| 0 <= m < places.len() && places[m] == i;
                assert(m < before.len());
                assert(before[m] == i);
            }
            if before.contains(i) {
                let m = choose|m: int| 0 <= m < before.len() && before[m] == i;
                assert(places[m] == i);
            }
        }
        lemma_filter_is_places(rest, p, before);
        assert(s.filter(p) =~= Seq::new(places.len(), |k: int| s[places[k]])) by {
            assert forall|k: int| 0 <= k < before.len() implies rest[#[trigger] before[k]] == s[places[k]] by {
                assert(before[k] == places[k]);
            }
        }
    }
}

/// Places that are all among others are no more than those.
proof fn lemma_places_within(a: Seq<int>, b: Seq<int>, bound: int)
    requires
        are_places(a, bound as nat),
        are_places(b, bound as nat),
        0 <= bound,
        forall|k: int| 0 <= k < a.len() ==> b.contains(#[trigger] a[k]),
    ensures
        a.len() <= b.len(),
    decreases bound,
{
    if a.len() > 0 {
        let top = a.last();
        assert(a[a.len() - 1] == top);
        let m = choose|m: int| 0 <= m < b.len() && b[m] == top;
        let x = a.drop_last();
        let y = b.take(m);
        assert forall|k: int| 0 <= k < x.len() implies 0 <= #[trigger] x[k] < top && y.contains(x[k]) by {
            assert(x[k] == a[k]);
            assert(a[k] < a[a.len() - 1]);
            let q = choose|q: int| 0 <= q < b.len() && b[q] == a[k];
            if q >= m {
                if q > m {
                    assert(b[m] < b[q]);
                }
            }
            assert(y[q] == x[k]);
        }
        assert forall|j: int, k: int| 0 <= j < k < x.len() implies #[trigger] x[j] < #[trigger] x[k] by {
            assert(a[j] < a[k]);
        }
        assert forall|k: int| 0 <= k < y.len() implies 0 <= #[trigger] y[k] < top by {
            assert(b[k] < b[m]);
        }
        assert forall|j: int, k: int| 0 <= j < k < y.len() implies #[trigger] y[j] < #[trigger] y[k] by {
            assert(b[j] < b[k]);
        }
        lemma_places_within(x, y, top);
    }
}

proof fn lemma_filter_len<A>(s: Seq<A>, p: spec_fn(A) -> bool)
    ensures
        s.filter(p).len() <= s.len(),
    decreases s.len(),
{
    reveal(Seq::filter);
    if s.len() > 0 {
        lemma_filter_len(s.drop_last(), p);
    }
}

// Parents that wait for a CPFP

/// A parent that waits for a CPFP is ready exactly once it was broadcast: in the mempool, on chain or
/// final. The order of the pending list is kept.
pub proof fn law_broadcast_parents_are_ready(store: StoreView, larger: StoreView, id: Txid)
    requires
        larger.txs == store.txs,
        larger.pending == store.pending.push(id),
    ensures
        larger.ready_parents() == if store.txs.contains_key(id) && (store.txs[id].state is InMempool
            || store.txs[id].state is Confirmed || store.txs[id].state is Finalized) {
            store.ready_parents().push(store.txs[id])
        } else {
            store.ready_parents()
        },
        store.pending.len() == 0 ==> store.ready_parents().len() == 0,
{
    let n = store.pending.len() as int;
    let pick = larger.broadcast_parent();
    assert(larger.broadcast_parent() =~= store.broadcast_parent());
    lemma_filter_map_step(larger.pending, pick, n);
    assert(larger.pending.take(n) =~= store.pending);
    assert(larger.pending.take(n + 1) =~= larger.pending);
    if store.pending.len() == 0 {
        lemma_filter_map_members(store.pending, store.broadcast_parent());
        if store.ready_parents().len() > 0 {
            assert(store.ready_parents().contains(store.ready_parents()[0]));
        }
    }
}

/// A broadcast parent gets its CPFP: when one waits, no speedup is to be dispatched and the live speedups
/// leave a slot free, all that a CPFP needs is there.
pub proof fn law_cpfp_is_built_for_a_broadcast_parent(
    store: StoreView,
    speedup: SpeedupSettings,
    id: Txid,
    places: Seq<int>,
)
    requires
        are_places(places, store.speedup_records().len()),
        forall|k: int|
            0 <= k < places.len() ==> is_live_at(store.speedup_records(), #[trigger] places[k]),
        forall|i: int| is_live_at(store.speedup_records(), i) ==> #[trigger] places.contains(i),
        places.len() < speedup.max_unconfirmed_speedups,
        store.pending.contains(id),
        store.txs.contains_key(id),
        store.txs[id].state is InMempool || store.txs[id].state is Confirmed
            || store.txs[id].state is Finalized,
        forall|j: int|
            0 <= j < store.speedup_records().len() ==> !((
            #[trigger] store.speedup_records()[j]).state is ToDispatch),
    ensures
        store.ready_parents().contains(store.txs[id]),
        store.ready_parents().len() > 0,
        !any_waiting(store.speedup_records()),
        !must_replace(store.speedup_records(), speedup),
{
    lemma_filter_map_members(store.pending, store.broadcast_parent());
    let k = choose|k: int| 0 <= k < store.pending.len() && store.pending[k] == id;
    assert(store.broadcast_parent()(store.pending[k]) == Some(store.txs[id]));
    assert(store.ready_parents().contains(store.txs[id]));
    law_boost_replaces_when_slots_run_out(store.speedup_records(), speedup, places);
}

/// Only parents that are gone or have failed leave the pending list when it is cleaned; the others keep
/// their order.
pub proof fn law_pruning_drops_only_dead_parents(store: StoreView, larger: StoreView, id: Txid)
    requires
        larger.txs == store.txs,
        larger.pending == store.pending.push(id),
    ensures
        larger.prune_pending().pending == if store.txs.contains_key(id) && !(
        store.txs[id].state is Failed) {
            store.prune_pending().pending.push(id)
        } else {
            store.prune_pending().pending
        },
        store.prune_pending() == (StoreView { pending: store.prune_pending().pending, ..store }),
        store.pending.len() == 0 ==> store.prune_pending().pending.len() == 0,
{
    let n = store.pending.len() as int;
    assert(larger.is_not_dead() =~= store.is_not_dead());
    lemma_filter_step(larger.pending, larger.is_not_dead(), n);
    assert(larger.pending.take(n) =~= store.pending);
    assert(larger.pending.take(n + 1) =~= larger.pending);
    lemma_filter_len(store.pending, store.is_not_dead());
}

/// Each parent of a batch that was registered for speedup is paid for, with its own data and size; the
/// order is kept and no other transaction is paid for.
pub proof fn law_registered_parents_are_paid_for(
    batch: Seq<CoordinatedTxView>,
    more: CoordinatedTxView,
)
    ensures
        batch.push(more).filter_map(protocol_entry()) == match more.kind {
            TxKindView::NeedsSpeedup(data) => batch.filter_map(protocol_entry()).push(
                ParentEntry { data, vsize: more.tx.vsize() as u64 },
            ),
            _ => batch.filter_map(protocol_entry()),
        },
        Seq::<CoordinatedTxView>::empty().filter_map(protocol_entry()).len() == 0,
{
    let n = batch.len() as int;
    let larger = batch.push(more);
    lemma_filter_map_step(larger, protocol_entry(), n);
    assert(larger.take(n) =~= batch);
    assert(larger.take(n + 1) =~= larger);
    let none = Seq::<CoordinatedTxView>::empty();
    lemma_filter_map_members(none, protocol_entry());
    if none.filter_map(protocol_entry()).len() > 0 {
        assert(none.filter_map(protocol_entry()).contains(none.filter_map(protocol_entry())[0]));
    }
}

// Batches

/// Every transaction of a batch counts with its whole weight.
pub proof fn law_every_weight_counts(batch: Seq<CoordinatedTxView>, more: CoordinatedTxView)
    ensures
        batch_weight(Seq::<CoordinatedTxView>::empty()) == 0,
        batch_weight(batch.push(more)) == batch_weight(batch) + tx_weight(more.tx),
{
    assert(batch.push(more).drop_last() =~= batch);
}

/// A CPFP takes as many parents as one transaction may weigh, from the front: at least one, no more than
/// fit, and no fewer.
pub proof fn law_first_batch_is_as_large_as_it_may_be(
    parents: Seq<CoordinatedTxView>,
    max_weight: u64,
    batches: Seq<Seq<CoordinatedTxView>>,
)
    requires
        parents.len() > 0,
        splits_greedily(batches, parents, max_weight, 1),
    ensures
        ({
            let batch = first_batch(parents, max_weight);
            let n = batch.len() as int;
            &&& batches == seq![batch]
            &&& 0 < n <= parents.len()
            &&& batch == parents.take(n)
            &&& n > 1 ==> batch_weight(batch) <= max_weight
            &&& n < parents.len() ==> batch_weight(batch) + tx_weight(parents[n].tx) > max_weight
        }),
{
    lemma_first_batch(batches, parents, max_weight);
    let batch = first_batch(parents, max_weight);
    reveal_with_fuel(joined, 2);
    assert(batches.drop_last() =~= Seq::empty());
    assert(joined(batches) =~= batch);
    assert(batches =~= seq![batch]);
    assert(batches[0].len() > 0);
}

/// Splitting parents into batches loses none and keeps their order. A batch of several stays within the
/// limit, none is empty, and a new one is begun only for a parent that the one before has no room for.
pub proof fn law_batches_are_filled_in_order(
    batches: Seq<Seq<CoordinatedTxView>>,
    parents: Seq<CoordinatedTxView>,
    max_weight: u64,
    max_batches: u32,
    i: int,
)
    requires
        splits_greedily(batches, parents, max_weight, max_batches),
        0 <= i < batches.len(),
    ensures
        batches.len() <= max_batches,
        batches[i].len() > 0,
        batches[i].len() > 1 ==> batch_weight(batches[i]) <= max_weight,
        i + 1 < batches.len() ==> batch_weight(batches[i]) + tx_weight(batches[i + 1][0].tx) > max_weight,
        batches.len() < max_batches ==> joined(batches) == parents,
        joined(batches) == parents.take(joined(batches).len() as int),
{
    if i + 1 < batches.len() {
        assert(batches[i].len() > 0 && batches[i + 1].len() > 0);
    }
    if joined(batches).len() == parents.len() {
        assert(parents.take(parents.len() as int) =~= parents);
    }
}

/// Batches are joined in order, each with all its transactions.
pub proof fn law_batches_are_joined_in_order(
    batches: Seq<Seq<CoordinatedTxView>>,
    more: Seq<CoordinatedTxView>,
)
    ensures
        joined(Seq::<Seq<CoordinatedTxView>>::empty()).len() == 0,
        joined(batches.push(more)) == joined(batches) + more,
{
    assert(batches.push(more).drop_last() =~= batches);
}

} // verus!
