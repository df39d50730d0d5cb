use crate::config::BitcoinSettings;
use crate::coordinator::{is_for_client, pipeline, registers, registration, TickStep};
use crate::dispatch_laws::{cancelled, law_cancel_removes_only_what_is_cancellable};
use crate::errors::BitcoinCoordinatorError;
use crate::helper::not_in_batch_text;
use crate::laws::news_is_unique;
use crate::lemmas::{
    lemma_filter_all, lemma_filter_map_members, lemma_filter_map_step, lemma_filter_twice,
};
use crate::model::{
    cleaned_up, due_item, due_news, is_first_unacked, mark_shown, not_acked_before, other_than,
    NewsItemView, StoreView,
};
use crate::primitives::{tx_id, tx_weight, BlockHeight, TransactionView, Txid};
use crate::text::{decimal, occurs_at, occurs_in, precedes, reversed_hex};
use crate::types::{
    CoordinatedTx, CoordinatedTxView, CoordinatorNewsView, MonitorNewsView, MonitorRequest,
    MonitorRequestView, TransactionState, TxKindView,
};
use vstd::prelude::*;
use vstd::string::*;

verus! {

// Cancelling

/// The transaction was registered by the client and was not dispatched yet.
pub open spec fn is_undispatched(store: StoreView, id: Txid) -> bool {
    store.txs.contains_key(id) && (store.txs[id].kind is Normal || store.txs[id].kind is NeedsSpeedup)
        && store.txs[id].state is ToDispatch
}

/// A transaction that the client registered can be cancelled as long as it was not dispatched, whatever
/// else was asked of it; nothing else can be.
pub proof fn law_undispatched_transactions_can_be_cancelled(store: StoreView, id: Txid)
    ensures
        store.cancel_refusal(id) is None <==> store.txs.contains_key(id) && (
        store.txs[id].kind is Normal || store.txs[id].kind is NeedsSpeedup)
            && store.txs[id].state is ToDispatch,
{
}

/// A request to cancel is granted for exactly the undispatched transactions that it names, in its order.
pub proof fn law_cancel_grants_the_undispatched(store: StoreView, ids: Seq<Txid>)
    ensures
        ids.filter(store.is_cancellable()) == ids.filter(|id: Txid| is_undispatched(store, id)),
{
    assert(store.is_cancellable() =~= (|id: Txid| is_undispatched(store, id)));
}

/// Cancelling an undispatched transaction removes it: it is off the record and off the list of parents that
/// wait for a CPFP.
pub proof fn law_cancelled_transactions_are_gone(store: StoreView, ids: Seq<Txid>, id: Txid)
    requires
        ids.contains(id),
        is_undispatched(store, id),
    ensures
        !cancelled(store, ids).txs.contains_key(id),
        !cancelled(store, ids).pending.contains(id),
{
    law_cancel_removes_only_what_is_cancellable(store, ids, id);
}

/// A request in which everything can be cancelled is reported to nobody.
pub proof fn law_granted_cancels_are_silent(store: StoreView, ids: Seq<Txid>)
    requires
        forall|i: int| 0 <= i < ids.len() ==> is_undispatched(store, #[trigger] ids[i]),
    ensures
        store.report_refusals(ids) == store,
    decreases ids.len(),
{
    if ids.len() > 0 {
        let rest = ids.drop_last();
        assert forall|i: int| 0 <= i < rest.len() implies is_undispatched(store, #[trigger] rest[i]) by {
            assert(is_undispatched(store, ids[i]));
        }
        law_granted_cancels_are_silent(store, rest);
        assert(is_undispatched(store, ids[ids.len() - 1]));
    }
}

/// Every other transaction of a request is reported with the reason: not on record, not registered by the
/// client, or already dispatched.
pub proof fn law_refused_cancels_say_why(store: StoreView, ids: Seq<Txid>, id: Txid)
    ensures
        !store.txs.contains_key(id) ==> store.report_refusals(ids.push(id)) == store.report_refusals(
            ids,
        ).report(
            CoordinatorNewsView::InvalidCancel { txid: id, reason: "tx not found in coordinator storage"@ },
        ),
        store.txs.contains_key(id) && (store.txs[id].kind is Speedup || store.txs[id].kind is Funding)
            ==> store.report_refusals(ids.push(id)) == store.report_refusals(ids).report(
            CoordinatorNewsView::InvalidCancel {
                txid: id,
                reason: "tx kind "@ + (if store.txs[id].kind is Speedup {
                    "Speedup"@
                } else {
                    "Funding"@
                }) + " is not cancellable (only Normal / NeedsSpeedup)"@,
            },
        ),
        store.txs.contains_key(id) && (store.txs[id].kind is Normal || store.txs[id].kind is NeedsSpeedup)
            && !(store.txs[id].state is ToDispatch) ==> store.report_refusals(ids.push(id))
            == store.report_refusals(ids).report(
            CoordinatorNewsView::InvalidCancel {
                txid: id,
                reason: "tx already dispatched (state="@ + (match store.txs[id].state {
                    TransactionState::ToDispatch => "ToDispatch"@,
                    TransactionState::InMempool => "InMempool"@,
                    TransactionState::Confirmed => "Confirmed"@,
                    TransactionState::Finalized => "Finalized"@,
                    TransactionState::Failed => "Failed"@,
                }) + "); cancel is only valid in ToDispatch"@,
            },
        ),
        is_undispatched(store, id) ==> store.report_refusals(ids.push(id)) == store.report_refusals(ids),
{
    assert(ids.push(id).drop_last() =~= ids);
}

/// Taking parents off the pending list takes exactly them off it; the others keep their order, and nothing
/// else changes.
pub proof fn law_unlisting_keeps_the_others_in_order(store: StoreView, ids: Seq<Txid>)
    ensures
        store.unlist_pending(ids) == (StoreView {
            pending: store.pending.filter(|x: Txid| !ids.contains(x)),
            ..store
        }),
    decreases ids.len(),
{
    let keep = |x: Txid| !ids.contains(x);
    if ids.len() == 0 {
        lemma_filter_all(store.pending, keep);
    } else {
        let rest = ids.drop_last();
        let before = |x: Txid| !rest.contains(x);
        law_unlisting_keeps_the_others_in_order(store, rest);
        assert forall|x: Txid| #[trigger] keep(x) <==> before(x) && other_than(ids.last())(x) by {
            assert(ids[ids.len() - 1] == ids.last());
            if rest.contains(x) {
                let k = choose|k: int| 0 <= k < rest.len() && rest[k] == x;
                assert(ids[k] == x);
            }
            if ids.contains(x) && x != ids.last() {
                let k = choose|k: int| 0 <= k < ids.len() && ids[k] == x;
                assert(rest[k] == x);
            }
        }
        lemma_filter_twice(store.pending, before, other_than(ids.last()), keep);
    }
}

/// Removing records takes exactly them out; the other records and the other listed speedups stay as they
/// are, in order.
pub proof fn law_removing_is_local(store: StoreView, id: Txid, other: Txid)
    requires
        other != id,
    ensures
        ({
            let after = store.remove(id);
            &&& !after.txs.contains_key(id)
            &&& after.txs.get(other) == store.txs.get(other)
            &&& after.speedups == store.speedups.filter(|x: Txid| x != id)
            &&& after.news == store.news
            &&& after.pending == store.pending
            &&& after.funding == store.funding
        }),
{
    assert(other_than(id) =~= (|x: Txid| x != id));
}

/// Cancelled transactions are removed one after the other.
pub proof fn law_every_listed_record_is_removed(store: StoreView, ids: Seq<Txid>, more: Txid)
    ensures
        store.remove_each(Seq::<Txid>::empty()) == store,
        store.remove_each(ids.push(more)) == store.remove_each(ids).remove(more),
{
    assert(ids.push(more).drop_last() =~= ids);
}

// Registering

/// A registered transaction is recorded as the client gave it: it waits to be dispatched, with the target
/// height, the trigger and the limit that were asked for, under its context, at the rate in use.
pub proof fn law_registration_keeps_what_was_asked(
    tx: TransactionView,
    kind: TxKindView,
    context: Seq<char>,
    target: BlockHeight,
    trigger: Option<u32>,
    stuck: Option<u32>,
    fee_rate: u64,
)
    requires
        tx.vsize() * fee_rate <= u64::MAX,
    ensures
        ({
            let record = registration(tx, kind, context, target, trigger, stuck, fee_rate);
            &&& record.txid == tx_id(tx)
            &&& record.tx == tx
            &&& record.kind == kind
            &&& record.context == context
            &&& record.state is ToDispatch
            &&& record.target_block_height == target
            &&& record.confirmation_trigger == trigger
            &&& record.stuck_in_mempool_blocks == stuck
            &&& record.broadcast_block_height is None
            &&& record.settled_block_height is None
            &&& record.fail_guard_until is None
            &&& record.retry_count == 0
            &&& record.fee_info.fee == tx.vsize() * fee_rate
            &&& record.fee_info.fee_rate == fee_rate
            &&& record.fee_info.package_fee_rate == fee_rate
            &&& record.fee_info.weight == tx_weight(tx)
        }),
{
    assert(tx.vsize() * fee_rate >= 0) by (nonlinear_arith)
        requires
            tx.vsize() >= 0,
            fee_rate >= 0,
    ;
}

/// A transaction that is not on record is registered, whatever else is on record, and the monitor is asked
/// to follow it: under its txid and context, with the client's trigger, not yet in the mempool.
pub proof fn law_new_transactions_are_registered(
    r: Result<Option<(MonitorRequest, CoordinatedTx)>, BitcoinCoordinatorError>,
    store: StoreView,
    record: CoordinatedTxView,
    fee_rate: u64,
)
    requires
        registers(r, store, record, fee_rate),
        !store.txs.contains_key(record.txid),
        record.tx.vsize() * fee_rate <= u64::MAX,
    ensures
        r matches Ok(Some((request, prepared))) && prepared@ == record && request@ == (
        MonitorRequestView::Watch {
            txids: seq![record.txid],
            context: record.context,
            confirmation_trigger: record.confirmation_trigger,
            search_in_mempool: false,
        }),
{
}

/// Storing a registered transaction touches nothing else; one that needs a speedup is the last to wait for
/// a CPFP, unless it waits already, and any other does not wait for one.
pub proof fn law_registering_is_local(store: StoreView, tx: CoordinatedTxView, other: Txid)
    requires
        other != tx.txid,
    ensures
        ({
            let after = store.register(tx);
            &&& after.txs.contains_key(tx.txid) && after.txs[tx.txid] == tx
            &&& after.txs.get(other) == store.txs.get(other)
            &&& after.news == store.news
            &&& after.speedups == store.speedups
            &&& after.funding == store.funding
            &&& tx.kind is NeedsSpeedup && !store.pending.contains(tx.txid) ==> after.pending
                == store.pending.push(tx.txid)
            &&& !(tx.kind is NeedsSpeedup) || store.pending.contains(tx.txid) ==> after.pending
                == store.pending
        }),
{
}

// News

/// News that is not known yet goes to the end, not shown and not acknowledged; what was there stays as it
/// was, and so does everything else.
pub proof fn law_fresh_news_goes_to_the_end(store: StoreView, news: CoordinatorNewsView)
    requires
        forall|i: int| 0 <= i < store.news.len() ==> (#[trigger] store.news[i]).news != news,
    ensures
        store.report(news) == (StoreView {
            news: store.news.push(NewsItemView { news, acked_at_block: None, shown_at_block: None }),
            ..store
        }),
{
}

/// News that is known, acknowledged or not, is not stored again.
pub proof fn law_known_news_is_not_repeated(store: StoreView, news: CoordinatorNewsView, i: int)
    requires
        0 <= i < store.news.len(),
        store.news[i].news == news,
    ensures
        store.report(news) == store,
{
}

/// The news that is shown is that which is neither acknowledged nor shown at this block yet, in the order
/// of arrival.
pub proof fn law_news_is_shown_in_order(
    items: Seq<NewsItemView>,
    more: NewsItemView,
    height: BlockHeight,
)
    ensures
        due_news(items.push(more), height) == if more.acked_at_block is None && more.shown_at_block != Some(
            height,
        ) {
            due_news(items, height).push(more.news)
        } else {
            due_news(items, height)
        },
        due_news(Seq::<NewsItemView>::empty(), height).len() == 0,
{
    let n = items.len() as int;
    let larger = items.push(more);
    let due = due_item(height);
    lemma_filter_map_step(larger, due, n);
    assert(larger.take(n) =~= items);
    assert(larger.take(n + 1) =~= larger);
    let none = Seq::<NewsItemView>::empty();
    lemma_filter_map_members(none, due);
    if none.filter_map(due).len() > 0 {
        assert(none.filter_map(due).contains(none.filter_map(due)[0]));
    }
}

/// Showing news marks what was shown with the block, and changes nothing else of any item.
pub proof fn law_showing_only_marks(items: Seq<NewsItemView>, height: BlockHeight, i: int)
    requires
        0 <= i < items.len(),
    ensures
        ({
            let after = mark_shown(items, height);
            &&& after.len() == items.len()
            &&& after[i].news == items[i].news
            &&& after[i].acked_at_block == items[i].acked_at_block
            &&& items[i].acked_at_block is None ==> after[i].shown_at_block == Some(height)
            &&& items[i].acked_at_block is Some ==> after[i].shown_at_block == items[i].shown_at_block
        }),
{
}

/// Acknowledging news marks its item with the block; every other item, and everything else, stays as it
/// is.
pub proof fn law_acknowledging_marks_one_item(
    store: StoreView,
    news: CoordinatorNewsView,
    height: BlockHeight,
    i: int,
)
    requires
        news_is_unique(store.news),
        0 <= i < store.news.len(),
        store.news[i].news == news,
        store.news[i].acked_at_block is None,
    ensures
        store.acknowledge(news, height) == (StoreView {
            news: store.news.update(
                i,
                NewsItemView { acked_at_block: Some(height), ..store.news[i] },
            ),
            ..store
        }),
{
    assert forall|j: int| 0 <= j < i implies !((#[trigger] store.news[j]).acked_at_block is None
        && store.news[j].news == news) by {
        assert(store.news[j].news != store.news[i].news);
    }
    assert(is_first_unacked(store.news, news, i));
    let k = choose|k: int| is_first_unacked(store.news, news, k);
    if k < i {
        assert(store.news[k].news != store.news[i].news);
    }
    if i < k {
        assert(store.news[i].news != store.news[k].news);
    }
}

/// News that is not stored, or was acknowledged before, has nothing to acknowledge.
pub proof fn law_unknown_news_is_not_acknowledged(
    store: StoreView,
    news: CoordinatorNewsView,
    height: BlockHeight,
)
    requires
        forall|i: int|
            0 <= i < store.news.len() ==> (#[trigger] store.news[i]).news != news
                || store.news[i].acked_at_block is Some,
    ensures
        store.acknowledge(news, height) == store,
{
    if exists|i: int| is_first_unacked(store.news, news, i) {
        let i = choose|i: int| is_first_unacked(store.news, news, i);
        assert(store.news[i].news != news || store.news[i].acked_at_block is Some);
    }
}

/// A clean-up drops exactly the items that were acknowledged at an earlier block; the others keep their
/// order.
pub proof fn law_cleanup_drops_what_was_acknowledged_before(items: Seq<NewsItemView>, height: BlockHeight)
    ensures
        cleaned_up(items, height) == items.filter(
            |item: NewsItemView|
                match item.acked_at_block {
                    Some(acked) => acked >= height,
                    None => true,
                },
        ),
{
    let keep = |item: NewsItemView|
        match item.acked_at_block {
            Some(acked) => acked >= height,
            None => true,
        };
    assert(not_acked_before(height) =~= keep);
}

/// The monitor's news about the coordinator's own speedups is kept from the client: that with one of the
/// two speedup contexts anywhere in its context. All other news reaches the client.
pub proof fn law_own_speedups_are_kept_from_the_client(
    news: MonitorNewsView,
    before: Seq<char>,
    after: Seq<char>,
)
    ensures
        news.transaction_context is None ==> is_for_client()(news),
        news.transaction_context == Some(before + "CPFP_TRANSACTION"@ + after) ==> !is_for_client()(news),
        news.transaction_context == Some(before + "RBF_TRANSACTION"@ + after) ==> !is_for_client()(news),
        news.transaction_context matches Some(context) ==> (forall|i: int, j: int|
            0 <= i <= j <= context.len() ==> #[trigger] context.subrange(i, j) != "CPFP_TRANSACTION"@
                && context.subrange(i, j) != "RBF_TRANSACTION"@) ==> is_for_client()(news),
{
    let cpfp = "CPFP_TRANSACTION"@;
    let rbf = "RBF_TRANSACTION"@;
    if news.transaction_context == Some(before + cpfp + after) {
        lemma_part_occurs(before, cpfp, after);
    }
    if news.transaction_context == Some(before + rbf + after) {
        lemma_part_occurs(before, rbf, after);
    }
    if let Some(context) = news.transaction_context {
        if forall|i: int, j: int|
            0 <= i <= j <= context.len() ==> #[trigger] context.subrange(i, j) != cpfp
                && context.subrange(i, j) != rbf {
            if occurs_in(context, cpfp) {
                let i = choose|i: int| occurs_at(context, cpfp, i);
                assert(context.subrange(i, i + cpfp.len()) == cpfp);
            }
            if occurs_in(context, rbf) {
                let i = choose|i: int| occurs_at(context, rbf, i);
                assert(context.subrange(i, i + rbf.len()) == rbf);
            }
        }
    }
}

proof fn lemma_part_occurs(before: Seq<char>, part: Seq<char>, after: Seq<char>)
    ensures
        occurs_in(before + part + after, part),
{
    let text = before + part + after;
    let i = before.len() as int;
    assert(text.subrange(i, i + part.len()) =~= part);
    assert(occurs_at(text, part, i));
}

// Settings

/// The settings are in order exactly when each of them is within its limits; no setting constrains another
/// one but for the two fee rates.
pub proof fn law_settings_within_limits_are_valid(settings: BitcoinSettings)
    ensures
        settings.first_problem() is None <==> {
            &&& 1 <= settings.speedup.max_unconfirmed_speedups <= 25
            &&& 1 <= settings.dispatcher.max_tx_weight <= 400_000
            &&& 1 <= settings.speedup.max_rbf_attempts <= 20
            &&& 10_000 <= settings.funding.min_funding_amount_sats
            &&& 0x3FF0_0000_0000_0000 <= settings.speedup.rbf_fee_multiplier.bits <= 0x4008_0000_0000_0000
            &&& 1 <= settings.speedup.min_blocks_before_resend_speedup <= 3
            &&& 1 <= settings.fee.max_feerate_sat_vb <= 1000
            &&& 1 <= settings.fee.base_fee_multiplier.bits <= 0x4059_0000_0000_0000
            &&& 0x3FF0_0000_0000_0000 <= settings.speedup.bump_fee_percentage.bits
                <= 0x4059_0000_0000_0000
            &&& 1 <= settings.coordinator.retry_interval_seconds <= 300
            &&& 1 <= settings.fee.min_safe_fee_rate <= settings.fee.max_feerate_sat_vb
        },
{
}

/// Without settings, these are used.
pub proof fn law_default_settings()
    ensures
        ({
            let settings = BitcoinSettings::defaults();
            &&& settings.first_problem() is None
            &&& settings.coordinator.retry_interval_seconds == 5
            &&& settings.coordinator.retry_attempts_sending_tx == 3
            &&& settings.dispatcher.max_tx_weight == 400_000
            &&& settings.fee.max_feerate_sat_vb == 1000
            &&& settings.fee.base_fee_multiplier.bits == 0x3FF0_0000_0000_0000
            &&& settings.fee.min_safe_fee_rate == 1
            &&& settings.speedup.max_unconfirmed_speedups == 10
            &&& settings.speedup.max_rbf_attempts == 10
            &&& settings.speedup.min_blocks_before_resend_speedup == 1
            &&& settings.speedup.rbf_fee_multiplier.bits == 0x3FF8_0000_0000_0000
            &&& settings.speedup.bump_fee_percentage.bits == 0x3FF8_0000_0000_0000
            &&& settings.funding.min_funding_amount_sats == 10_000
            &&& settings.storage.max_tracking_confirmations == 10
        }),
{
}

/// The first limit that is broken is named: a setting is blamed only when all that come before it are
/// within their limits.
pub proof fn law_first_broken_limit_is_named(settings: BitcoinSettings)
    ensures
        ({
            let problem = settings.first_problem();
            let slots = 1 <= settings.speedup.max_unconfirmed_speedups <= 25;
            let weight = slots && 1 <= settings.dispatcher.max_tx_weight <= 400_000;
            let attempts = weight && 1 <= settings.speedup.max_rbf_attempts <= 20;
            let funding = attempts && settings.funding.min_funding_amount_sats >= 10_000;
            let factor = funding && 0x3FF0_0000_0000_0000 <= settings.speedup.rbf_fee_multiplier.bits
                <= 0x4008_0000_0000_0000;
            let blocks = factor && 1 <= settings.speedup.min_blocks_before_resend_speedup <= 3;
            let most = blocks && 1 <= settings.fee.max_feerate_sat_vb <= 1000;
            let base = most && 1 <= settings.fee.base_fee_multiplier.bits <= 0x4059_0000_0000_0000;
            let bump = base && 0x3FF0_0000_0000_0000 <= settings.speedup.bump_fee_percentage.bits
                <= 0x4059_0000_0000_0000;
            let interval = bump && 1 <= settings.coordinator.retry_interval_seconds <= 300;
            let least = interval && settings.fee.min_safe_fee_rate >= 1;
            &&& !slots ==> problem == Some("invalid max_unconfirmed_speedups"@)
            &&& slots && !weight ==> problem == Some("invalid max_tx_weight"@)
            &&& weight && !attempts ==> problem == Some("invalid max_rbf_attempts"@)
            &&& attempts && !funding ==> problem == Some("funding below dust threshold"@)
            &&& funding && !factor ==> problem == Some("invalid rbf_fee_multiplier"@)
            &&& factor && !blocks ==> problem == Some("invalid min_blocks_before_resend_speedup"@)
            &&& blocks && !most ==> problem == Some("invalid max_feerate_sat_vb"@)
            &&& most && !base ==> problem == Some("invalid base_fee_multiplier"@)
            &&& base && !bump ==> problem == Some("invalid bump_fee_percentage"@)
            &&& bump && !interval ==> problem == Some("invalid retry_interval_seconds"@)
            &&& interval && !least ==> problem == Some("min_safe_fee_rate must be at least 1 sat/vB"@)
            &&& least && settings.fee.min_safe_fee_rate > settings.fee.max_feerate_sat_vb ==> problem
                == Some("min_safe_fee_rate cannot exceed max_feerate_sat_vb"@)
        }),
{
}

// The pipeline

/// The step stands at this place of the tick.
pub open spec fn runs_at(step: TickStep, place: int) -> bool {
    0 <= place < pipeline().len() && pipeline()[place] == step
}

/// A tick runs each step once, and in this order: clean-up, review, broadcast and building, with
/// transactions before speedups and the boost before a new CPFP. So nothing is broadcast in the tick that
/// builds it.
pub proof fn law_tick_reviews_then_sends_then_builds(step: TickStep)
    ensures
        runs_at(TickStep::CleanupNews, 0),
        runs_at(TickStep::ReviewTransactions, 1),
        runs_at(TickStep::ReviewSpeedups, 2),
        runs_at(TickStep::DispatchTransactions, 3),
        runs_at(TickStep::DispatchSpeedups, 4),
        runs_at(TickStep::Boost, 5),
        runs_at(TickStep::CreateCpfp, 6),
        pipeline().len() == 7,
        exists|place: int| #[trigger] runs_at(step, place),
        forall|a: int, b: int| #[trigger] runs_at(step, a) && #[trigger] runs_at(step, b) ==> a == b,
{
    assert(runs_at(TickStep::CleanupNews, 0));
    assert(runs_at(TickStep::ReviewTransactions, 1));
    assert(runs_at(TickStep::ReviewSpeedups, 2));
    assert(runs_at(TickStep::DispatchTransactions, 3));
    assert(runs_at(TickStep::DispatchSpeedups, 4));
    assert(runs_at(TickStep::Boost, 5));
    assert(runs_at(TickStep::CreateCpfp, 6));
}

// Texts

/// Texts are ordered by the first character in which they differ, and a text comes before its extensions.
pub proof fn law_texts_are_in_dictionary_order(
    common: Seq<char>,
    x: char,
    y: char,
    a: Seq<char>,
    b: Seq<char>,
)
    requires
        x < y,
    ensures
        precedes(common + seq![x] + a, common + seq![y] + b),
        !precedes(common + seq![y] + b, common + seq![x] + a),
        precedes(common, common + seq![x] + a),
        !precedes(common + seq![x] + a, common),
    decreases common.len(),
{
    let s = common + seq![x] + a;
    let t = common + seq![y] + b;
    if common.len() > 0 {
        let rest = common.skip(1);
        law_texts_are_in_dictionary_order(rest, x, y, a, b);
        assert(s.skip(1) =~= rest + seq![x] + a);
        assert(t.skip(1) =~= rest + seq![y] + b);
        assert(s[0] == t[0] && s[0] == common[0]);
    } else {
        assert(s[0] == x && t[0] == y);
    }
}

/// A number is written with its digits in order, without leading zeros.
pub proof fn law_decimal_appends_digits(n: nat, digit: nat)
    requires
        digit < 10,
    ensures
        decimal(digit) == seq!["0123456789"@[digit as int]],
        n > 0 ==> decimal(10 * n + digit) == decimal(n) + seq!["0123456789"@[digit as int]],
{
    reveal_strlit("0123456789");
    reveal_strlit("0123456789abcdef");
    let digits = "0123456789abcdef"@;
    assert("0123456789"@[digit as int] == digits[digit as int]);
    assert(digits.subrange(digit as int, digit as int + 1) =~= seq![digits[digit as int]]);
    assert(decimal(digit) == digits.subrange(digit as int, digit as int + 1));
    if n > 0 {
        let m = 10 * n + digit;
        assert(m >= 10 && m / 10 == n && m % 10 == digit);
        assert(decimal(m) == decimal(m / 10) + digits.subrange(digit as int, digit as int + 1));
    }
}

/// A txid is displayed from its last byte to its first, two hexadecimal digits each.
pub proof fn law_txid_is_displayed_in_reverse(id: Txid, bytes: Seq<u8>, n: nat)
    requires
        n < bytes.len(),
    ensures
        id.bytes@ == bytes ==> id.text() == reversed_hex(bytes, bytes.len()),
        reversed_hex(bytes, 0).len() == 0,
        reversed_hex(bytes, n + 1) == seq![
            "0123456789abcdef"@[bytes[n as int] as int / 16],
            "0123456789abcdef"@[bytes[n as int] as int % 16],
        ] + reversed_hex(bytes, n),
{
    reveal_strlit("0123456789abcdef");
    let digits = "0123456789abcdef"@;
    let high = bytes[n as int] as int / 16;
    let low = bytes[n as int] as int % 16;
    assert(0 <= high < 16 && 0 <= low < 16);
    assert(digits.subrange(high, high + 1) + digits.subrange(low, low + 1) =~= seq![
        digits[high],
        digits[low],
    ]);
}

/// An error says what it is about and then why.
pub proof fn law_errors_say_what_they_are(error: BitcoinCoordinatorError)
    ensures
        error matches BitcoinCoordinatorError::InvalidConfiguration(m) ==> error.text()
            == "Bad configuration: "@ + m@,
        error matches BitcoinCoordinatorError::Internal(m) ==> error.text()
            == "Internal error (programmer bug): "@ + m@,
        error matches BitcoinCoordinatorError::InvariantViolation(m) ==> error.text()
            == "Invariant violation: "@ + m@,
{
}

/// A message about a record names its transaction, and what it is in place of what it should be.
pub proof fn law_messages_name_the_transaction(tx: CoordinatedTxView, other: Txid)
    ensures
        tx.no_output_text() == "tx "@ + tx.txid.text() + " has no outputs"@,
        tx.wrong_txid_text(other) == "expected txid "@ + other.text() + ", got "@ + tx.txid.text(),
        tx.no_speedup_text() == "expected Speedup, got "@ + tx.kind.label() + " for tx "@ + tx.txid.text(),
        tx.no_speedup_to_change_text() == "expected Speedup (mut) for tx "@ + tx.txid.text(),
        not_in_batch_text(other) == "dispatcher returned txid "@ + other.text()
            + " not present in dispatch batch"@,
        !(tx.kind is Speedup) ==> tx.no_funding_text() == "expected Funding or Speedup, got "@
            + tx.kind.label() + " for tx "@ + tx.txid.text(),
        tx.kind is Speedup && tx.tx.output.len() == 0 ==> tx.no_change_text() == "tx "@ + tx.txid.text()
            + " has no outputs"@,
        tx.kind is Speedup && tx.tx.output.len() > 0 ==> tx.no_change_text() == "tx "@ + tx.txid.text()
            + " has no funding inputs"@,
        tx.kind.label() == match tx.kind {
            TxKindView::Normal => "Normal"@,
            TxKindView::NeedsSpeedup(_) => "NeedsSpeedup"@,
            TxKindView::Speedup(_) => "Speedup"@,
            TxKindView::Funding(_) => "Funding"@,
        },
{
}

} // verus!
