use crate::lemmas::lemma_filter_members;
use crate::model::{
    cleaned_up, due_news, is_due, is_first_unacked, mark_shown, not_acked_before, other_than,
    NewsItemView, StoreView,
};
use crate::primitives::{BlockHeight, Txid};
use crate::types::{CoordinatedTxView, CoordinatorNewsView, TransactionState};
use vstd::prelude::*;

verus! {

// Lifecycle

/// Whatever is asked of it, a record in a terminal state stays in that state.
pub proof fn law_terminal_states_are_final(
    store: StoreView,
    id: Txid,
    next: TransactionState,
    height: Option<BlockHeight>,
    deadline: BlockHeight,
)
    requires
        store.is_keyed(),
        store.txs.contains_key(id),
        store.txs[id].state.is_terminal(),
    ensures
        store.transition(id, next, height).txs[id].state == store.txs[id].state,
        store.requeue_not_found(id, deadline).txs[id].state == store.txs[id].state,
        store.mark_as_retry(id).txs[id].state == store.txs[id].state,
{
}

/// Asking for a step that the lifecycle does not allow changes no record and is reported.
pub proof fn law_forbidden_step_is_reported(
    store: StoreView,
    id: Txid,
    next: TransactionState,
    height: Option<BlockHeight>,
)
    requires
        store.txs.contains_key(id),
        !store.txs[id].state.may_become(next),
    ensures
        store.transition(id, next, height).txs == store.txs,
        store.transition(id, next, height).knows_news(
            CoordinatorNewsView::InvalidStateTransition { txid: id, from: store.txs[id].state, to: next },
        ),
{
    law_report_is_stored(
        store,
        CoordinatorNewsView::InvalidStateTransition { txid: id, from: store.txs[id].state, to: next },
    );
}

/// A step concerns one record only.
pub proof fn law_steps_are_local(
    store: StoreView,
    id: Txid,
    other: Txid,
    next: TransactionState,
    height: Option<BlockHeight>,
    deadline: BlockHeight,
)
    requires
        store.is_keyed(),
        id != other,
    ensures
        store.transition(id, next, height).txs.get(other) == store.txs.get(other),
        store.requeue_not_found(id, deadline).txs.get(other) == store.txs.get(other),
        store.mark_as_retry(id).txs.get(other) == store.txs.get(other),
{
}

/// A record that is stored is found, and one that is removed is not; removing it takes it off the list of
/// speedups too.
pub proof fn law_put_get_remove(store: StoreView, tx: CoordinatedTxView)
    ensures
        store.put(tx).txs.contains_key(tx.txid),
        store.put(tx).txs[tx.txid] == tx,
        !store.remove(tx.txid).txs.contains_key(tx.txid),
        !store.remove(tx.txid).speedups.contains(tx.txid),
        store.put(tx).remove(tx.txid) == store.remove(tx.txid),
{
    lemma_filter_members(store.speedups, other_than(tx.txid));
    assert(store.put(tx).txs.remove(tx.txid) =~= store.txs.remove(tx.txid));
}

// News

/// News that was reported is stored.
pub proof fn law_report_is_stored(store: StoreView, news: CoordinatorNewsView)
    ensures
        store.report(news).knows_news(news),
{
    if !store.knows_news(news) {
        assert(store.report(news).news[store.news.len() as int].news == news);
    }
}

/// News is stored once: reporting it again changes nothing.
pub proof fn law_news_is_stored_once(store: StoreView, news: CoordinatorNewsView)
    ensures
        store.report(news).report(news) == store.report(news),
{
    law_report_is_stored(store, news);
}

/// No two stored items have the same news.
pub open spec fn news_is_unique(items: Seq<NewsItemView>) -> bool {
    forall|i: int, j: int|
        0 <= i < j < items.len() ==> (#[trigger] items[i]).news != (#[trigger] items[j]).news
}

/// No operation on news ever stores the same news twice.
pub proof fn law_news_stays_unique(store: StoreView, news: CoordinatorNewsView, height: BlockHeight)
    requires
        news_is_unique(store.news),
    ensures
        news_is_unique(store.report(news).news),
        news_is_unique(store.acknowledge(news, height).news),
        news_is_unique(mark_shown(store.news, height)),
        news_is_unique(cleaned_up(store.news, height)),
{
    let items = store.news;
    let reported = store.report(news).news;
    assert forall|i: int, j: int| 0 <= i < j < reported.len() implies (#[trigger] reported[i]).news != (
    #[trigger] reported[j]).news by {
        assert(items[i].news != news || store.knows_news(news));
        if j < items.len() {
            assert(items[i].news != items[j].news);
        }
    }
    let acked = store.acknowledge(news, height).news;
    assert forall|i: int, j: int| 0 <= i < j < acked.len() implies (#[trigger] acked[i]).news != (
    #[trigger] acked[j]).news by {
        assert(items[i].news != items[j].news);
        assert(acked[i].news == items[i].news && acked[j].news == items[j].news);
    }
    let shown = mark_shown(items, height);
    assert forall|i: int, j: int| 0 <= i < j < shown.len() implies (#[trigger] shown[i]).news != (
    #[trigger] shown[j]).news by {
        assert(items[i].news != items[j].news);
    }
    lemma_filter_keeps_unique_news(items, not_acked_before(height));
}

proof fn lemma_filter_keeps_unique_news(items: Seq<NewsItemView>, p: spec_fn(NewsItemView) -> bool)
    requires
        news_is_unique(items),
    ensures
        news_is_unique(items.filter(p)),
    decreases items.len(),
{
    reveal(Seq::filter);
    if items.len() > 0 {
        let rest = items.drop_last();
        assert forall|i: int, j: int| 0 <= i < j < rest.len() implies (#[trigger] rest[i]).news != (
        #[trigger] rest[j]).news by {
            assert(items[i].news != items[j].news);
        }
        lemma_filter_keeps_unique_news(rest, p);
        lemma_filter_members(rest, p);
        if p(items.last()) {
            let kept = rest.filter(p);
            let all = items.filter(p);
            assert forall|i: int, j: int| 0 <= i < j < all.len() implies (#[trigger] all[i]).news != (
            #[trigger] all[j]).news by {
                if j < kept.len() {
                    assert(kept[i].news != kept[j].news);
                } else {
                    assert(kept.contains(kept[i]));
                    let k = choose|k: int| 0 <= k < rest.len() && rest[k] == kept[i];
                    assert(items[k].news != items[items.len() - 1].news);
                }
            }
        }
    }
}

proof fn lemma_no_due_item(items: Seq<NewsItemView>, height: BlockHeight)
    requires
        forall|i: int| 0 <= i < items.len() ==> !is_due(#[trigger] items[i], height),
    ensures
        due_news(items, height).len() == 0,
    decreases items.len(),
{
    if items.len() > 0 {
        let rest = items.drop_last();
        assert forall|i: int| 0 <= i < rest.len() implies !is_due(#[trigger] rest[i], height) by {
            assert(!is_due(items[i], height));
        }
        lemma_no_due_item(rest, height);
        assert(!is_due(items[items.len() - 1], height));
    }
}

/// A second look at the same block shows nothing.
pub proof fn law_news_is_shown_once_per_block(items: Seq<NewsItemView>, height: BlockHeight)
    ensures
        due_news(mark_shown(items, height), height).len() == 0,
{
    let shown = mark_shown(items, height);
    assert forall|i: int| 0 <= i < shown.len() implies !is_due(#[trigger] shown[i], height) by {
        assert(is_due(items[i], height) || !is_due(items[i], height));
    }
    lemma_no_due_item(shown, height);
}

proof fn lemma_due_members(items: Seq<NewsItemView>, height: BlockHeight, news: CoordinatorNewsView)
    ensures
        due_news(items, height).contains(news) <==> exists|i: int|
            0 <= i < items.len() && is_due(#[trigger] items[i], height) && items[i].news == news,
    decreases items.len(),
{
    let due = due_news(items, height);
    if items.len() > 0 {
        let rest = items.drop_last();
        let before = due_news(rest, height);
        lemma_due_members(rest, height, news);
        let last = items.last();
        assert(items[items.len() - 1] == last);
        if exists|i: int|
            0 <= i < rest.len() && is_due(#[trigger] rest[i], height) && rest[i].news == news {
            let i = choose|i: int|
                0 <= i < rest.len() && is_due(#[trigger] rest[i], height) && rest[i].news == news;
            assert(is_due(items[i], height) && items[i].news == news);
        }
        if exists|i: int|
            0 <= i < items.len() && is_due(#[trigger] items[i], height) && items[i].news == news {
            let i = choose|i: int|
                0 <= i < items.len() && is_due(#[trigger] items[i], height) && items[i].news == news;
            if i < rest.len() {
                assert(is_due(rest[i], height) && rest[i].news == news);
            }
        }
        if is_due(last, height) {
            assert(due == before.push(last.news));
            if before.contains(news) {
                let k = choose|k: int| 0 <= k < before.len() && before[k] == news;
                assert(due[k] == news);
            }
            if last.news == news {
                assert(due[before.len() as int] == news);
            }
            if due.contains(news) {
                let k = choose|k: int| 0 <= k < due.len() && due[k] == news;
                if k < before.len() {
                    assert(before[k] == news);
                }
            }
        } else {
            assert(due == before);
        }
    }
}

/// News that is not acknowledged is shown again at every other block.
pub proof fn law_unacknowledged_news_comes_back(
    items: Seq<NewsItemView>,
    i: int,
    shown_at: BlockHeight,
    height: BlockHeight,
)
    requires
        0 <= i < items.len(),
        items[i].acked_at_block is None,
        items[i].shown_at_block != Some(height),
        shown_at != height,
    ensures
        due_news(mark_shown(items, shown_at), height).contains(items[i].news),
{
    let shown = mark_shown(items, shown_at);
    assert(is_due(shown[i], height) && shown[i].news == items[i].news);
    lemma_due_members(shown, height, items[i].news);
}

/// News that was acknowledged is not shown at any block.
pub proof fn law_acknowledged_news_is_not_shown(
    store: StoreView,
    news: CoordinatorNewsView,
    acked_at: BlockHeight,
    height: BlockHeight,
)
    requires
        news_is_unique(store.news),
    ensures
        !due_news(store.acknowledge(news, acked_at).news, height).contains(news),
{
    let after = store.acknowledge(news, acked_at).news;
    lemma_due_members(after, height, news);
    if exists|i: int| 0 <= i < after.len() && is_due(#[trigger] after[i], height) && after[i].news == news {
        let i = choose|i: int|
            0 <= i < after.len() && is_due(#[trigger] after[i], height) && after[i].news == news;
        if exists|k: int| is_first_unacked(store.news, news, k) {
            let k = choose|k: int| is_first_unacked(store.news, news, k);
            assert(after[k].acked_at_block is Some);
            if i < k {
                assert(store.news[i].news != store.news[k].news);
            }
            if k < i {
                assert(store.news[k].news != store.news[i].news);
            }
        } else {
            assert(store.news[i].acked_at_block is None && store.news[i].news == news);
            lemma_first_unacked_exists(store.news, news, i);
        }
    }
}

proof fn lemma_first_unacked_exists(items: Seq<NewsItemView>, news: CoordinatorNewsView, i: int)
    requires
        0 <= i < items.len(),
        items[i].acked_at_block is None,
        items[i].news == news,
    ensures
        exists|k: int| is_first_unacked(items, news, k),
    decreases i,
{
    if forall|j: int|
        0 <= j < i ==> !((#[trigger] items[j]).acked_at_block is None && items[j].news == news) {
        assert(is_first_unacked(items, news, i));
    } else {
        let j = choose|j: int|
            0 <= j < i && ((#[trigger] items[j]).acked_at_block is None && items[j].news == news);
        lemma_first_unacked_exists(items, news, j);
    }
}

/// News that was acknowledged cannot be reported again before a clean-up at a later block: it is still
/// stored, and a clean-up at the same block keeps it.
pub proof fn law_acknowledged_news_blocks_reports(
    store: StoreView,
    news: CoordinatorNewsView,
    height: BlockHeight,
)
    requires
        exists|i: int| is_first_unacked(store.news, news, i),
    ensures
        store.acknowledge(news, height).report(news) == store.acknowledge(news, height),
        (StoreView {
            news: cleaned_up(store.acknowledge(news, height).news, height),
            ..store
        }).knows_news(news),
{
    let after = store.acknowledge(news, height);
    let i = choose|i: int| is_first_unacked(store.news, news, i);
    assert(after.news[i].news == news);
    assert(after.knows_news(news));
    lemma_filter_members(after.news, not_acked_before(height));
    assert(after.news.contains(after.news[i]));
    let cleaned = cleaned_up(after.news, height);
    assert(cleaned.contains(after.news[i]));
    let k = choose|k: int| 0 <= k < cleaned.len() && cleaned[k] == after.news[i];
    assert((StoreView { news: cleaned, ..store }).news[k].news == news);
}

/// A clean-up at a later block forgets acknowledged news, which can then be reported anew.
pub proof fn law_cleanup_forgets_acknowledged_news(
    store: StoreView,
    news: CoordinatorNewsView,
    acked_at: BlockHeight,
    height: BlockHeight,
)
    requires
        news_is_unique(store.news),
        acked_at < height,
        exists|i: int| is_first_unacked(store.news, news, i),
    ensures
        !(StoreView {
            news: cleaned_up(store.acknowledge(news, acked_at).news, height),
            ..store
        }).knows_news(news),
{
    let after = store.acknowledge(news, acked_at).news;
    let keep = not_acked_before(height);
    let cleaned = cleaned_up(after, height);
    lemma_filter_members(after, keep);
    let held = StoreView { news: cleaned, ..store };
    if held.knows_news(news) {
        let k = choose|k: int| 0 <= k < held.news.len() && (#[trigger] held.news[k]).news == news;
        assert(cleaned.contains(cleaned[k]));
        let i = choose|i: int| 0 <= i < after.len() && after[i] == cleaned[k];
        let first = choose|i: int| is_first_unacked(store.news, news, i);
        assert(after[first].acked_at_block == Some(acked_at));
        if i < first {
            assert(store.news[i].news != store.news[first].news);
        }
        if first < i {
            assert(store.news[first].news != store.news[i].news);
        }
    }
}

/// Unacknowledged news survives every clean-up.
pub proof fn law_cleanup_keeps_unacknowledged_news(items: Seq<NewsItemView>, i: int, height: BlockHeight)
    requires
        0 <= i < items.len(),
        items[i].acked_at_block is None,
    ensures
        cleaned_up(items, height).contains(items[i]),
{
    lemma_filter_members(items, not_acked_before(height));
    assert(items.contains(items[i]));
}

} // verus!
