use crate::dispatcher::DispatchOutcomeView;
use crate::engine_context::{verdict_of, NodeState};
use crate::funding::release;
use crate::funding_laws::law_parents_of_a_lost_cpfp_wait_again;
use crate::laws::law_report_is_stored;
use crate::lemmas::lemma_present_members;
use crate::model::{not_listed, with_replaced_by, with_spent, StoreView};
use crate::primitives::{BlockHeight, Txid};
use crate::types::{
    CoordinatedTxView, CoordinatorNewsView, FeeInfo, SpeedupKindView, TransactionState, TxKindView,
    Utxo,
};
use vstd::prelude::*;

verus! {

/// The listed speedups that wait to be dispatched.
pub open spec fn waiting(store: StoreView) -> Set<Txid> {
    Set::new(|id: Txid| store.speedups.contains(id) && store.is_waiting(id))
}

/// Two records are about the same transaction, and depend on the same others.
spec fn same_dependencies(a: CoordinatedTxView, b: CoordinatedTxView) -> bool {
    &&& a.txid == b.txid
    &&& a.context == b.context
    &&& a.kind is NeedsSpeedup == b.kind is NeedsSpeedup
    &&& a.is_speedup() == b.is_speedup()
    &&& a.is_speedup() ==> a.speedup().context().funding_inputs
        == b.speedup().context().funding_inputs && a.speedup().parents() == b.speedup().parents()
}

/// Two stores list the same speedups, with the same dependencies.
spec fn same_links(a: StoreView, b: StoreView) -> bool {
    &&& a.is_keyed() && b.is_keyed()
    &&& a.speedups == b.speedups
    &&& forall|id: Txid| #[trigger] a.txs.contains_key(id) <==> b.txs.contains_key(id)
    &&& forall|id: Txid| #[trigger]
        a.txs.contains_key(id) ==> same_dependencies(a.txs[id], b.txs[id])
}

/// Besides, every record is in the same state.
spec fn same_states(a: StoreView, b: StoreView) -> bool {
    &&& same_links(a, b)
    &&& forall|id: Txid| #[trigger] a.txs.contains_key(id) ==> a.txs[id].state == b.txs[id].state
}

proof fn lemma_release_keeps_states(store: StoreView, utxos: Seq<Utxo>)
    requires
        store.is_keyed(),
    ensures
        same_states(store, release(store, utxos)),
    decreases utxos.len(),
{
    if utxos.len() > 0 {
        lemma_release_keeps_states(store, utxos.drop_last());
        let before = release(store, utxos.drop_last());
        let after = release(store, utxos);
        let id = utxos.last().txid;
        assert(same_states(before, after)) by {
            if before.txs.contains_key(id) {
                assert(same_dependencies(before.txs[id], with_spent(before.txs[id], false)));
            }
        }
    }
}

/// Settling a failed transaction keeps the links; of the waiting speedups it takes out that one alone.
proof fn lemma_settle_failed(store: StoreView, tx: CoordinatedTxView, height: BlockHeight, missing: bool)
    requires
        store.is_keyed(),
    ensures
        same_links(store, store.settle_failed(tx, height, missing)),
        waiting(store.settle_failed(tx, height, missing)) =~= waiting(store).remove(tx.txid),
        forall|id: Txid| #[trigger]
            store.txs.contains_key(id) ==> store.settle_failed(tx, height, missing).txs[id].state == if id
                == tx.txid && (store.txs[id].state is ToDispatch || store.txs[id].state is InMempool) {
                TransactionState::Failed
            } else {
                store.txs[id].state
            },
{
    let settled = store.settle(tx.txid, TransactionState::Failed, height);
    let reported = settled.report(tx.dispatch_error());
    assert(same_links(store, reported));
    assert(reported.is_keyed());
    let released = match tx.kind {
        TxKindView::Speedup(SpeedupKindView::CPFP { parents, context }) => release(
            reported,
            context.funding_inputs,
        ),
        TxKindView::Speedup(SpeedupKindView::RBF { replaces, new_funding_inputs, .. }) => release(
            reported,
            new_funding_inputs,
        ).unmark_replaced(replaces),
        _ => reported,
    };
    assert(same_states(reported, released)) by {
        match tx.kind {
            TxKindView::Speedup(SpeedupKindView::CPFP { parents, context }) => {
                lemma_release_keeps_states(reported, context.funding_inputs);
            },
            TxKindView::Speedup(SpeedupKindView::RBF { replaces, new_funding_inputs, .. }) => {
                lemma_release_keeps_states(reported, new_funding_inputs);
                let freed = release(reported, new_funding_inputs);
                if freed.txs.contains_key(replaces) && freed.txs[replaces].is_speedup() {
                    assert(same_dependencies(
                        freed.txs[replaces],
                        with_replaced_by(freed.txs[replaces], None),
                    ));
                }
                assert(same_states(freed, released));
            },
            _ => {},
        }
    }
    let after = store.settle_failed(tx, height, missing);
    assert(after == (StoreView { pending: after.pending, ..released }));
    assert(same_states(released, after));
    assert forall|id: Txid| waiting(after).contains(id) <==> waiting(store).remove(tx.txid).contains(id) by {
        if store.txs.contains_key(id) {
            assert(reported.txs.contains_key(id));
            assert(released.txs.contains_key(id));
            assert(released.txs[id].state == reported.txs[id].state);
        }
    }
    assert forall|id: Txid| #[trigger] store.txs.contains_key(id) implies after.txs[id].state == if id
        == tx.txid && (store.txs[id].state is ToDispatch || store.txs[id].state is InMempool) {
        TransactionState::Failed
    } else {
        store.txs[id].state
    } by {
        assert(reported.txs.contains_key(id));
        assert(released.txs.contains_key(id));
    }
}

proof fn lemma_same_links_transitive(a: StoreView, b: StoreView, c: StoreView)
    requires
        same_links(a, b),
        same_links(b, c),
    ensures
        same_links(a, c),
{
    assert forall|id: Txid| #[trigger] a.txs.contains_key(id) implies same_dependencies(
        a.txs[id],
        c.txs[id],
    ) by {
        assert(b.txs.contains_key(id));
    }
}

/// `listed` gives the listed records of a store, each with its dependencies, and says of those that wait
/// that they do.
spec fn lists_links(listed: Seq<CoordinatedTxView>, store: StoreView) -> bool {
    forall|i: int|
        0 <= i < listed.len() ==> {
            let id = (#[trigger] listed[i]).txid;
            &&& store.speedups.contains(id)
            &&& store.txs.contains_key(id)
            &&& same_dependencies(listed[i], store.txs[id])
            &&& store.is_waiting(id) ==> listed[i].state is ToDispatch
        }
}

/// No speedup in `left` depends on `id`.
spec fn is_left_alone(store: StoreView, left: Set<Txid>, id: Txid) -> bool {
    forall|d: Txid| #[trigger] left.contains(d) ==> !store.txs[d].depends_on(id)
}

proof fn lemma_lists_links_of(store: StoreView)
    requires
        store.is_keyed(),
    ensures
        lists_links(store.speedup_records(), store),
        forall|id: Txid| #[trigger]
            waiting(store).contains(id) ==> store.speedup_records().contains(store.txs[id]),
{
    let all = store.speedup_records();
    lemma_present_members(store.txs, store.speedups);
    assert forall|i: int| 0 <= i < all.len() implies ({
        let id = (#[trigger] all[i]).txid;
        &&& store.speedups.contains(id)
        &&& store.txs.contains_key(id)
        &&& same_dependencies(all[i], store.txs[id])
        &&& store.is_waiting(id) ==> all[i].state is ToDispatch
    }) by {
        assert(all.contains(all[i]));
        let k = choose|k: int|
            0 <= k < store.speedups.len() && store.txs.contains_key(#[trigger] store.speedups[k])
                && store.txs[store.speedups[k]] == all[i];
        assert(store.txs[store.speedups[k]].txid == store.speedups[k]);
    }
    assert forall|id: Txid| #[trigger] waiting(store).contains(id) implies all.contains(store.txs[id]) by {
        let k = choose|k: int| 0 <= k < store.speedups.len() && store.speedups[k] == id;
        assert(store.txs.contains_key(store.speedups[k]) && store.txs[store.speedups[k]] == store.txs[id]);
    }
}

proof fn lemma_cascade(
    store: StoreView,
    listed: Seq<CoordinatedTxView>,
    cause: Txid,
    height: BlockHeight,
    depth: nat,
)
    requires
        store.is_keyed(),
        lists_links(listed, store),
        waiting(store).finite(),
        waiting(store).len() <= depth,
    ensures
        ({
            let after = store.cascade(listed, cause, height, depth);
            &&& same_links(store, after)
            &&& waiting(after).subset_of(waiting(store))
            &&& forall|i: int|
                0 <= i < listed.len() && waiting(after).contains((#[trigger] listed[i]).txid)
                    ==> !listed[i].depends_on(cause)
            &&& forall|v: Txid| #[trigger]
                waiting(store).contains(v) && !waiting(after).contains(v) ==> is_left_alone(
                    after,
                    waiting(after),
                    v,
                )
        }),
    decreases depth, listed.len(),
{
    let after = store.cascade(listed, cause, height, depth);
    if depth == 0 {
        assert(waiting(store) =~= Set::empty()) by {
            if exists|id: Txid| waiting(store).contains(id) {
                let id = choose|id: Txid| waiting(store).contains(id);
                assert(waiting(store).len() > 0);
            }
        }
    } else if listed.len() > 0 {
        let rest = listed.drop_last();
        let victim = listed.last();
        assert(listed[listed.len() - 1] == victim);
        assert forall|i: int| 0 <= i < rest.len() implies ({
            let id = (#[trigger] rest[i]).txid;
            &&& store.speedups.contains(id)
            &&& store.txs.contains_key(id)
            &&& same_dependencies(rest[i], store.txs[id])
            &&& store.is_waiting(id) ==> rest[i].state is ToDispatch
        }) by {
            assert(rest[i] == listed[i]);
        }
        lemma_cascade(store, rest, cause, height, depth);
        let before = store.cascade(rest, cause, height, depth);
        assert(waiting(before).finite() && waiting(before).len() <= waiting(store).len()) by {
            vstd::set_lib::lemma_len_subset(waiting(before), waiting(store));
        }
        assert(store.txs.contains_key(victim.txid) && store.speedups.contains(victim.txid));
        if before.is_waiting(victim.txid) && victim.state is ToDispatch && victim.depends_on(cause) {
            let settled = before.settle_failed(victim, height, true);
            lemma_settle_failed(before, victim, height, true);
            assert(waiting(before).contains(victim.txid));
            assert(waiting(settled).finite() && waiting(settled).len() == waiting(before).len() - 1);
            lemma_lists_links_of(settled);
            lemma_cascade(
                settled,
                settled.speedup_records(),
                victim.txid,
                height,
                (depth - 1) as nat,
            );
            lemma_same_links_transitive(store, before, settled);
            lemma_same_links_transitive(store, settled, after);
            lemma_same_links_transitive(before, settled, after);
            assert forall|i: int|
                0 <= i < listed.len() && waiting(after).contains((#[trigger] listed[i]).txid)
                implies !listed[i].depends_on(cause) by {
                if i < rest.len() {
                    assert(rest[i] == listed[i]);
                    assert(waiting(before).contains(rest[i].txid));
                } else {
                    assert(!waiting(settled).contains(victim.txid));
                }
            }
            assert forall|v: Txid| #[trigger]
                waiting(store).contains(v) && !waiting(after).contains(v) implies is_left_alone(
                after,
                waiting(after),
                v,
            ) by {
                assert forall|d: Txid| #[trigger] waiting(after).contains(d) implies !after.txs[d].depends_on(
                    v,
                ) by {
                    assert(waiting(settled).contains(d));
                    assert(waiting(before).contains(d));
                    assert(before.txs.contains_key(d));
                    assert(same_dependencies(before.txs[d], after.txs[d]));
                    if !waiting(before).contains(v) {
                        assert(is_left_alone(before, waiting(before), v));
                    } else if v == victim.txid {
                        assert(settled.speedup_records().contains(settled.txs[d]));
                        let k = choose|k: int|
                            0 <= k < settled.speedup_records().len() && settled.speedup_records()[k]
                                == settled.txs[d];
                        assert(settled.txs[d].txid == d);
                        assert(!settled.speedup_records()[k].depends_on(victim.txid));
                        assert(same_dependencies(settled.txs[d], after.txs[d]));
                    } else {
                        assert(waiting(settled).contains(v));
                        assert(is_left_alone(after, waiting(after), v));
                    }
                }
            }
        } else {
            assert forall|i: int|
                0 <= i < listed.len() && waiting(after).contains((#[trigger] listed[i]).txid)
                implies !listed[i].depends_on(cause) by {
                if i < rest.len() {
                    assert(rest[i] == listed[i]);
                } else {
                    assert(waiting(store).contains(victim.txid));
                }
            }
        }
    }
}

/// A failure leaves no orphan in the queue: once a transaction is settled as failed, no speedup that
/// depends on it waits to be dispatched, nor one that depends on a speedup that failed along with it; and
/// nothing starts to wait.
pub proof fn law_failure_leaves_no_orphan(
    store: StoreView,
    tx: CoordinatedTxView,
    height: BlockHeight,
    funding_missing: bool,
    left: Txid,
    lost: Txid,
)
    requires
        store.is_keyed(),
        ({
            let after = store.fail_and_cascade(tx, height, funding_missing);
            &&& waiting(after).contains(left)
            &&& lost == tx.txid || (waiting(store).contains(lost) && !waiting(after).contains(lost))
        }),
    ensures
        !store.fail_and_cascade(tx, height, funding_missing).txs[left].depends_on(lost),
        waiting(store).contains(left),
        !waiting(store.fail_and_cascade(tx, height, funding_missing)).contains(tx.txid),
{
    let settled = store.settle_failed(tx, height, funding_missing);
    let all = settled.speedup_records();
    let after = store.fail_and_cascade(tx, height, funding_missing);
    lemma_settle_failed(store, tx, height, funding_missing);
    lemma_lists_links_of(settled);
    let listed = settled.speedups.to_set();
    vstd::seq_lib::seq_to_set_is_finite(settled.speedups);
    settled.speedups.lemma_cardinality_of_set();
    assert(waiting(settled).subset_of(listed));
    vstd::set_lib::lemma_len_subset(waiting(settled), listed);
    lemma_cascade(settled, all, tx.txid, height, settled.speedups.len());
    assert(waiting(settled).contains(left));
    assert(settled.txs.contains_key(left));
    assert(same_dependencies(settled.txs[left], after.txs[left]));
    if lost == tx.txid {
        assert(all.contains(settled.txs[left]));
        let k = choose|k: int| 0 <= k < all.len() && all[k] == settled.txs[left];
        assert(settled.txs[left].txid == left);
        assert(!all[k].depends_on(tx.txid));
    } else {
        assert(waiting(settled).contains(lost));
        assert(is_left_alone(after, waiting(after), lost));
    }
}

/// A speedup that was lost from the queue depends on `cause`, or on another one that was lost.
spec fn is_lost_for_a_reason(store: StoreView, after: StoreView, cause: Txid, lost: Txid) -> bool {
    store.txs[lost].depends_on(cause) || exists|c: Txid| #[trigger]
        waiting(store).contains(c) && !waiting(after).contains(c) && store.txs[lost].depends_on(c)
}

/// The states are the same but for the speedups in the queue that have failed.
spec fn loses_only_waiting(store: StoreView, after: StoreView) -> bool {
    forall|id: Txid| #[trigger]
        store.txs.contains_key(id) ==> after.txs[id].state == store.txs[id].state || (
        waiting(store).contains(id) && after.txs[id].state is Failed)
}

proof fn lemma_cascade_takes_dependents(
    store: StoreView,
    listed: Seq<CoordinatedTxView>,
    cause: Txid,
    height: BlockHeight,
    depth: nat,
)
    requires
        store.is_keyed(),
        lists_links(listed, store),
    ensures
        ({
            let after = store.cascade(listed, cause, height, depth);
            &&& same_links(store, after)
            &&& waiting(after).subset_of(waiting(store))
            &&& loses_only_waiting(store, after)
            &&& forall|v: Txid| #[trigger]
                waiting(store).contains(v) && !waiting(after).contains(v) ==> is_lost_for_a_reason(
                    store,
                    after,
                    cause,
                    v,
                )
        }),
    decreases depth, listed.len(),
{
    let after = store.cascade(listed, cause, height, depth);
    if depth > 0 && listed.len() > 0 {
        let rest = listed.drop_last();
        let victim = listed.last();
        assert(listed[listed.len() - 1] == victim);
        assert forall|i: int| 0 <= i < rest.len() implies ({
            let id = (#[trigger] rest[i]).txid;
            &&& store.speedups.contains(id)
            &&& store.txs.contains_key(id)
            &&& same_dependencies(rest[i], store.txs[id])
            &&& store.is_waiting(id) ==> rest[i].state is ToDispatch
        }) by {
            assert(rest[i] == listed[i]);
        }
        lemma_cascade_takes_dependents(store, rest, cause, height, depth);
        let before = store.cascade(rest, cause, height, depth);
        if before.is_waiting(victim.txid) && victim.state is ToDispatch && victim.depends_on(cause) {
            let settled = before.settle_failed(victim, height, true);
            lemma_settle_failed(before, victim, height, true);
            lemma_lists_links_of(settled);
            lemma_cascade_takes_dependents(
                settled,
                settled.speedup_records(),
                victim.txid,
                height,
                (depth - 1) as nat,
            );
            lemma_same_links_transitive(store, before, settled);
            lemma_same_links_transitive(store, settled, after);
            assert(waiting(before).contains(victim.txid));
            assert(waiting(store).contains(victim.txid) && !waiting(after).contains(victim.txid));
            assert forall|v: Txid| #[trigger]
                waiting(store).contains(v) && !waiting(after).contains(v) implies is_lost_for_a_reason(
                store,
                after,
                cause,
                v,
            ) by {
                assert(store.txs.contains_key(v));
                if !waiting(before).contains(v) {
                    assert(is_lost_for_a_reason(store, before, cause, v));
                    if !store.txs[v].depends_on(cause) {
                        let c = choose|c: Txid| #[trigger]
                            waiting(store).contains(c) && !waiting(before).contains(c)
                                && store.txs[v].depends_on(c);
                        assert(waiting(store).contains(c) && !waiting(after).contains(c));
                    }
                } else if v == victim.txid {
                    assert(same_dependencies(victim, store.txs[v]));
                } else {
                    assert(waiting(settled).contains(v));
                    assert(is_lost_for_a_reason(settled, after, victim.txid, v));
                    assert(same_dependencies(store.txs[v], settled.txs[v]));
                    if store.txs[v].depends_on(victim.txid) {
                        assert(waiting(store).contains(victim.txid));
                    } else {
                        let c = choose|c: Txid| #[trigger]
                            waiting(settled).contains(c) && !waiting(after).contains(c)
                                && settled.txs[v].depends_on(c);
                        assert(waiting(before).contains(c));
                        assert(waiting(store).contains(c));
                    }
                }
            }
            assert(loses_only_waiting(store, after)) by {
                assert forall|id: Txid| #[trigger] store.txs.contains_key(id) implies after.txs[id].state
                    == store.txs[id].state || (waiting(store).contains(id) && after.txs[id].state is Failed) by {
                    assert(before.txs.contains_key(id));
                    assert(settled.txs.contains_key(id));
                    if waiting(settled).contains(id) {
                        assert(waiting(before).contains(id));
                    }
                }
            }
        }
    }
}

/// A failure takes along only what depends on it: a speedup that was waiting and no longer is has failed,
/// and depends on the transaction that failed first or on another one that failed along. The state of
/// every record that was not waiting stays as it was, but for that transaction.
pub proof fn law_failure_takes_only_dependents(
    store: StoreView,
    tx: CoordinatedTxView,
    height: BlockHeight,
    funding_missing: bool,
    id: Txid,
)
    requires
        store.is_keyed(),
        store.txs.contains_key(id),
        id != tx.txid,
    ensures
        ({
            let after = store.fail_and_cascade(tx, height, funding_missing);
            &&& after.txs.contains_key(id)
            &&& waiting(store).contains(id) && !waiting(after).contains(id) ==> after.txs[id].state is Failed
                && (store.txs[id].depends_on(tx.txid) || exists|c: Txid| #[trigger]
                waiting(store).contains(c) && !waiting(after).contains(c) && store.txs[id].depends_on(c))
            &&& !waiting(store).contains(id) || waiting(after).contains(id) ==> after.txs[id].state
                == store.txs[id].state
            &&& waiting(after).contains(id) ==> waiting(store).contains(id)
        }),
{
    let settled = store.settle_failed(tx, height, funding_missing);
    let after = store.fail_and_cascade(tx, height, funding_missing);
    lemma_settle_failed(store, tx, height, funding_missing);
    lemma_lists_links_of(settled);
    lemma_cascade_takes_dependents(
        settled,
        settled.speedup_records(),
        tx.txid,
        height,
        settled.speedups.len(),
    );
    assert(settled.txs.contains_key(id));
    assert(same_dependencies(store.txs[id], settled.txs[id]));
    if waiting(store).contains(id) && !waiting(after).contains(id) {
        assert(waiting(settled).contains(id));
        assert(is_lost_for_a_reason(settled, after, tx.txid, id));
        if !store.txs[id].depends_on(tx.txid) {
            let c = choose|c: Txid| #[trigger]
                waiting(settled).contains(c) && !waiting(after).contains(c)
                    && settled.txs[id].depends_on(c);
            assert(waiting(store).contains(c));
        }
    }
}

// Parents that survive

proof fn lemma_release_keeps_pending(store: StoreView, utxos: Seq<Utxo>)
    ensures
        release(store, utxos).pending == store.pending,
    decreases utxos.len(),
{
    if utxos.len() > 0 {
        lemma_release_keeps_pending(store, utxos.drop_last());
    }
}

proof fn lemma_settle_failed_keeps_pending(
    store: StoreView,
    tx: CoordinatedTxView,
    height: BlockHeight,
    missing: bool,
    id: Txid,
)
    requires
        store.pending.contains(id),
    ensures
        store.settle_failed(tx, height, missing).pending.contains(id),
{
    let reported = store.settle(tx.txid, TransactionState::Failed, height).report(tx.dispatch_error());
    let k = choose|k: int| 0 <= k < store.pending.len() && store.pending[k] == id;
    match tx.kind {
        TxKindView::Speedup(SpeedupKindView::CPFP { parents, context }) => {
            lemma_release_keeps_pending(reported, context.funding_inputs);
            let released = release(reported, context.funding_inputs);
            let after = store.settle_failed(tx, height, missing);
            if missing {
                let again = parents.filter(released.is_protocol_parent()).filter(
                    not_listed(released.pending),
                );
                assert(after.pending == again + released.pending);
                assert(after.pending[again.len() + k] == id);
            }
        },
        TxKindView::Speedup(SpeedupKindView::RBF { replaces, new_funding_inputs, .. }) => {
            lemma_release_keeps_pending(reported, new_funding_inputs);
        },
        _ => {},
    }
}

proof fn lemma_cascade_keeps_pending(
    store: StoreView,
    listed: Seq<CoordinatedTxView>,
    cause: Txid,
    height: BlockHeight,
    depth: nat,
    id: Txid,
)
    requires
        store.pending.contains(id),
    ensures
        store.cascade(listed, cause, height, depth).pending.contains(id),
    decreases depth, listed.len(),
{
    if depth > 0 && listed.len() > 0 {
        let before = store.cascade(listed.drop_last(), cause, height, depth);
        let victim = listed.last();
        lemma_cascade_keeps_pending(store, listed.drop_last(), cause, height, depth, id);
        if before.is_waiting(victim.txid) && victim.state is ToDispatch && victim.depends_on(cause) {
            let settled = before.settle_failed(victim, height, true);
            lemma_settle_failed_keeps_pending(before, victim, height, true, id);
            lemma_cascade_keeps_pending(
                settled,
                settled.speedup_records(),
                victim.txid,
                height,
                (depth - 1) as nat,
                id,
            );
        }
    }
}

proof fn lemma_settle_failed_keeps_news(
    store: StoreView,
    tx: CoordinatedTxView,
    height: BlockHeight,
    missing: bool,
    news: CoordinatorNewsView,
)
    requires
        store.knows_news(news) || news == tx.dispatch_error(),
    ensures
        store.settle_failed(tx, height, missing).knows_news(news),
{
    let settled = store.settle(tx.txid, TransactionState::Failed, height);
    if store.knows_news(news) {
        let k = choose|k: int| 0 <= k < store.news.len() && (#[trigger] store.news[k]).news == news;
        assert(settled.news[k].news == news);
    }
    let reported = settled.report(tx.dispatch_error());
    law_report_is_stored(settled, tx.dispatch_error());
    if settled.knows_news(news) {
        let k = choose|k: int| 0 <= k < settled.news.len() && (#[trigger] settled.news[k]).news == news;
        assert(reported.news[k].news == news);
    }
    assert(reported.knows_news(news));
    let k = choose|k: int| 0 <= k < reported.news.len() && (#[trigger] reported.news[k]).news == news;
    match tx.kind {
        TxKindView::Speedup(SpeedupKindView::CPFP { parents, context }) => {
            lemma_release_keeps_news(reported, context.funding_inputs);
        },
        TxKindView::Speedup(SpeedupKindView::RBF { replaces, new_funding_inputs, .. }) => {
            lemma_release_keeps_news(reported, new_funding_inputs);
        },
        _ => {},
    }
    assert(store.settle_failed(tx, height, missing).news[k].news == news);
}

proof fn lemma_release_keeps_news(store: StoreView, utxos: Seq<Utxo>)
    ensures
        release(store, utxos).news == store.news,
    decreases utxos.len(),
{
    if utxos.len() > 0 {
        lemma_release_keeps_news(store, utxos.drop_last());
    }
}

proof fn lemma_cascade_keeps_news(
    store: StoreView,
    listed: Seq<CoordinatedTxView>,
    cause: Txid,
    height: BlockHeight,
    depth: nat,
    news: CoordinatorNewsView,
)
    requires
        store.knows_news(news),
    ensures
        store.cascade(listed, cause, height, depth).knows_news(news),
    decreases depth, listed.len(),
{
    if depth > 0 && listed.len() > 0 {
        let before = store.cascade(listed.drop_last(), cause, height, depth);
        let victim = listed.last();
        lemma_cascade_keeps_news(store, listed.drop_last(), cause, height, depth, news);
        if before.is_waiting(victim.txid) && victim.state is ToDispatch && victim.depends_on(cause) {
            let settled = before.settle_failed(victim, height, true);
            lemma_settle_failed_keeps_news(before, victim, height, true, news);
            lemma_cascade_keeps_news(
                settled,
                settled.speedup_records(),
                victim.txid,
                height,
                (depth - 1) as nat,
                news,
            );
        }
    }
}

/// A speedup that is lost in a cascade is reported, and its registered parents wait again.
proof fn lemma_cascade_settles_its_victims(
    store: StoreView,
    listed: Seq<CoordinatedTxView>,
    cause: Txid,
    height: BlockHeight,
    depth: nat,
    lost: Txid,
)
    requires
        store.is_keyed(),
        lists_links(listed, store),
        waiting(store).contains(lost),
        store.txs[lost].is_speedup(),
        !waiting(store.cascade(listed, cause, height, depth)).contains(lost),
    ensures
        ({
            let after = store.cascade(listed, cause, height, depth);
            &&& after.knows_news(
                CoordinatorNewsView::SpeedupDispatchError {
                    txid: lost,
                    context: store.txs[lost].context,
                },
            )
            &&& forall|p: Txid| #[trigger]
                store.txs[lost].speedup().parents().contains(p) && store.txs.contains_key(p)
                    && store.txs[p].kind is NeedsSpeedup ==> after.pending.contains(p)
        }),
    decreases depth, listed.len(),
{
    let after = store.cascade(listed, cause, height, depth);
    let news = CoordinatorNewsView::SpeedupDispatchError { txid: lost, context: store.txs[lost].context };
    if depth > 0 && listed.len() > 0 {
        let rest = listed.drop_last();
        let victim = listed.last();
        assert(listed[listed.len() - 1] == victim);
        assert forall|i: int| 0 <= i < rest.len() implies ({
            let id = (#[trigger] rest[i]).txid;
            &&& store.speedups.contains(id)
            &&& store.txs.contains_key(id)
            &&& same_dependencies(rest[i], store.txs[id])
            &&& store.is_waiting(id) ==> rest[i].state is ToDispatch
        }) by {
            assert(rest[i] == listed[i]);
        }
        lemma_cascade_takes_dependents(store, rest, cause, height, depth);
        let before = store.cascade(rest, cause, height, depth);
        if !waiting(before).contains(lost) {
            lemma_cascade_settles_its_victims(store, rest, cause, height, depth, lost);
        }
        if before.is_waiting(victim.txid) && victim.state is ToDispatch && victim.depends_on(cause) {
            let settled = before.settle_failed(victim, height, true);
            let all = settled.speedup_records();
            let less = (depth - 1) as nat;
            lemma_settle_failed(before, victim, height, true);
            lemma_lists_links_of(settled);
            lemma_same_links_transitive(store, before, settled);
            assert(store.txs.contains_key(lost));
            assert(same_dependencies(store.txs[lost], settled.txs[lost]));
            if !waiting(before).contains(lost) {
                lemma_settle_failed_keeps_news(before, victim, height, true, news);
                lemma_cascade_keeps_news(settled, all, victim.txid, height, less, news);
            } else if lost == victim.txid {
                assert(same_dependencies(victim, store.txs[lost]));
                lemma_settle_failed_keeps_news(before, victim, height, true, news);
                lemma_cascade_keeps_news(settled, all, victim.txid, height, less, news);
            } else {
                assert(waiting(settled).contains(lost));
                lemma_cascade_settles_its_victims(settled, all, victim.txid, height, less, lost);
            }
            assert forall|p: Txid| #[trigger]
                store.txs[lost].speedup().parents().contains(p) && store.txs.contains_key(p)
                    && store.txs[p].kind is NeedsSpeedup implies after.pending.contains(p) by {
                assert(before.txs.contains_key(p));
                assert(same_dependencies(store.txs[p], before.txs[p]));
                assert(settled.txs.contains_key(p));
                assert(same_dependencies(store.txs[p], settled.txs[p]));
                if !waiting(before).contains(lost) {
                    lemma_settle_failed_keeps_pending(before, victim, height, true, p);
                    lemma_cascade_keeps_pending(settled, all, victim.txid, height, less, p);
                } else if lost == victim.txid {
                    law_parents_of_a_lost_cpfp_wait_again(before, victim, height, p);
                    lemma_cascade_keeps_pending(settled, all, victim.txid, height, less, p);
                } else {
                    assert(settled.txs[lost].speedup().parents().contains(p));
                }
            }
        }
    }
}

/// Every speedup that fails along is settled in full: it is reported, and the parents of a CPFP that were
/// registered for speedup wait for another one.
pub proof fn law_speedups_that_fail_along_are_settled_in_full(
    store: StoreView,
    tx: CoordinatedTxView,
    height: BlockHeight,
    funding_missing: bool,
    lost: Txid,
    parent: Txid,
)
    requires
        store.is_keyed(),
        lost != tx.txid,
        waiting(store).contains(lost),
        store.txs[lost].kind is Speedup,
        !waiting(store.fail_and_cascade(tx, height, funding_missing)).contains(lost),
    ensures
        ({
            let after = store.fail_and_cascade(tx, height, funding_missing);
            &&& after.knows_news(
                CoordinatorNewsView::SpeedupDispatchError {
                    txid: lost,
                    context: store.txs[lost].context,
                },
            )
            &&& (store.txs[lost].kind matches TxKindView::Speedup(SpeedupKindView::CPFP { parents, .. })
                && parents.contains(parent)) && store.txs.contains_key(parent)
                && store.txs[parent].kind is NeedsSpeedup ==> after.pending.contains(parent)
        }),
{
    let settled = store.settle_failed(tx, height, funding_missing);
    lemma_settle_failed(store, tx, height, funding_missing);
    lemma_lists_links_of(settled);
    assert(waiting(settled).contains(lost));
    assert(store.txs.contains_key(lost));
    assert(same_dependencies(store.txs[lost], settled.txs[lost]));
    lemma_cascade_settles_its_victims(
        settled,
        settled.speedup_records(),
        tx.txid,
        height,
        settled.speedups.len(),
        lost,
    );
    if store.txs.contains_key(parent) {
        assert(same_dependencies(store.txs[parent], settled.txs[parent]));
        assert(settled.txs.contains_key(parent));
    }
}

/// A CPFP that is lost with one of its parents leaves the others to be covered by another one: each that
/// was registered for speedup waits again, whatever the loss takes with it.
pub proof fn law_surviving_parents_are_covered_anew(
    store: StoreView,
    tx: CoordinatedTxView,
    node: NodeState,
    height: BlockHeight,
    attempts: u32,
    fee_info: FeeInfo,
    parent: Txid,
)
    requires
        store.is_keyed(),
        tx.kind matches TxKindView::Speedup(SpeedupKindView::CPFP { parents, .. }) && parents.contains(
            parent,
        ),
        store.txs.contains_key(parent),
        store.txs[parent].kind is NeedsSpeedup,
    ensures
        store.apply_verdict(
            tx,
            verdict_of(tx, DispatchOutcomeView::ParentFailed, node, height, attempts),
            height,
            fee_info,
        ).pending.contains(parent),
{
    law_parents_of_a_lost_cpfp_wait_again(store, tx, height, parent);
    let settled = store.settle_failed(tx, height, true);
    lemma_cascade_keeps_pending(
        settled,
        settled.speedup_records(),
        tx.txid,
        height,
        settled.speedups.len(),
        parent,
    );
}

} // verus!
