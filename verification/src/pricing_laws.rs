use crate::config::FeeSettings;
use crate::fee::{
    chain_shortfall, chain_vsize, fee_news, network_rate, plain_fee, speedup_fee, total_amount,
    total_vsize,
};
use crate::model::StoreView;
use crate::primitives::{tx_weight, witness_size, Multiplier, TransactionView};
use crate::speedup_builder::{boost_rate, capped_fee, paid_fee_info, sizes_only, SpeedupBuild};
use crate::speedup_model::{parent_vbytes, total_funding, ParentEntry};
use crate::types::{CoordinatedTxView, CoordinatorNewsView, Utxo};
use vstd::prelude::*;

verus! {

// Sizes

/// A virtual byte is four weight units, and a part of one counts in full.
pub proof fn law_vsize_rounds_up(tx: TransactionView)
    ensures
        4 * tx.vsize() >= tx_weight(tx),
        4 * tx.vsize() < tx_weight(tx) + 4,
{
}

/// No parent is left out of the size of a package: each adds its own size.
pub proof fn law_every_parent_counts(parents: Seq<ParentEntry>, more: ParentEntry)
    ensures
        parent_vbytes(Seq::<ParentEntry>::empty()) == 0,
        parent_vbytes(parents.push(more)) == parent_vbytes(parents) + more.vsize,
{
    assert(parents.push(more).drop_last() =~= parents);
}

/// No input is left out of what a speedup can spend: each adds its own amount.
pub proof fn law_every_input_counts(inputs: Seq<Utxo>, more: Utxo)
    ensures
        total_funding(Seq::<Utxo>::empty()) == 0,
        total_funding(inputs.push(more)) == total_funding(inputs) + more.amount,
{
    assert(inputs.push(more).drop_last() =~= inputs);
}

proof fn lemma_priced_sizes(parents: Seq<ParentEntry>)
    ensures
        total_vsize(sizes_only(parents)) == parent_vbytes(parents),
        total_amount(sizes_only(parents)) == 0,
        parent_vbytes(parents) >= 0,
    decreases parents.len(),
{
    if parents.len() > 0 {
        lemma_priced_sizes(parents.drop_last());
        assert(sizes_only(parents).drop_last() =~= sizes_only(parents.drop_last()));
    }
}

/// Every item of a witness takes its bytes and at most nine more for its length.
pub proof fn law_every_witness_item_counts(items: Seq<Seq<u8>>, more: Seq<u8>)
    ensures
        witness_size(Seq::<Seq<u8>>::empty()) == 0,
        witness_size(items.push(more)) == witness_size(items) + more.len() + 9,
{
    assert(items.push(more).drop_last() =~= items);
}

// What a speedup pays

/// The child pays for the whole package: with the 1 sat/vB that the parents paid themselves, what a CPFP
/// is priced at makes all of its parents and itself pay the fee rate, exactly, on top of what the chain
/// lacks.
pub proof fn law_child_pays_for_all_its_parents(build: SpeedupBuild)
    requires
        !build.is_rbf,
        build.fee_rate >= 1,
    ensures
        build.base_fee() + parent_vbytes(build.parents@) == (parent_vbytes(build.parents@)
            + build.child_vsize) * build.fee_rate + build.chain_diff_fee,
{
    let size = parent_vbytes(build.parents@);
    lemma_priced_sizes(build.parents@);
    let all = size + build.child_vsize;
    assert(all * build.fee_rate >= all) by (nonlinear_arith)
        requires
            all >= 0,
            build.fee_rate >= 1,
    ;
}

/// A replacement covers its package in the same way, and pays twice its own cost when that is more.
pub proof fn law_replacement_pays_for_all_its_parents(build: SpeedupBuild)
    requires
        build.is_rbf,
        build.fee_rate >= 1,
    ensures
        ({
            let size = parent_vbytes(build.parents@);
            let package = (size + build.child_vsize) * build.fee_rate - size;
            let twice = build.child_vsize * build.fee_rate * 2;
            build.base_fee() == build.chain_diff_fee + if package >= twice {
                package
            } else {
                twice
            }
        }),
{
    let size = parent_vbytes(build.parents@);
    lemma_priced_sizes(build.parents@);
    let all = size + build.child_vsize;
    assert(all * build.fee_rate >= all) by (nonlinear_arith)
        requires
            all >= 0,
            build.fee_rate >= 1,
    ;
}

/// One more parent raises the price of a CPFP by the size of that parent at the fee rate, less what the
/// parent paid itself.
pub proof fn law_one_more_parent_raises_the_price(
    build: SpeedupBuild,
    larger: SpeedupBuild,
    more: ParentEntry,
)
    requires
        !build.is_rbf && !larger.is_rbf,
        build.fee_rate >= 1,
        larger.parents@ == build.parents@.push(more),
        larger.child_vsize == build.child_vsize,
        larger.fee_rate == build.fee_rate,
        larger.chain_diff_fee == build.chain_diff_fee,
    ensures
        larger.base_fee() == build.base_fee() + more.vsize * (build.fee_rate - 1),
{
    law_child_pays_for_all_its_parents(build);
    law_child_pays_for_all_its_parents(larger);
    law_every_parent_counts(build.parents@, more);
    let size = parent_vbytes(build.parents@);
    let fee_rate = build.fee_rate as int;
    assert((size + more.vsize + build.child_vsize) * fee_rate == (size + build.child_vsize) * fee_rate
        + more.vsize * (fee_rate - 1) + more.vsize) by (nonlinear_arith);
}

/// A price that fits in 64 bits is found: pricing fails only where the package at the fee rate, twice the
/// cost of a replacement, or the price itself is larger.
pub proof fn law_price_is_found_where_it_fits(build: SpeedupBuild)
    requires
        build.wf(),
        build.fee_rate >= 1,
        (build.parent_vbytes + build.child_vsize) * build.fee_rate + build.chain_diff_fee <= u64::MAX,
        build.is_rbf ==> build.child_vsize * build.fee_rate * 2 + build.chain_diff_fee <= u64::MAX,
    ensures
        build.fee_fits(),
{
    lemma_priced_sizes(build.parents@);
    if build.is_rbf {
        law_replacement_pays_for_all_its_parents(build);
    } else {
        law_child_pays_for_all_its_parents(build);
    }
}

/// Entries add up: each adds its output amount and its size.
pub proof fn law_every_entry_counts(entries: Seq<(u64, u64)>, amount: u64, vsize: u64)
    ensures
        total_amount(Seq::<(u64, u64)>::empty()) == 0,
        total_vsize(Seq::<(u64, u64)>::empty()) == 0,
        total_amount(entries.push((amount, vsize))) == total_amount(entries) + amount,
        total_vsize(entries.push((amount, vsize))) == total_vsize(entries) + vsize,
{
    assert(entries.push((amount, vsize)).drop_last() =~= entries);
}

/// Whatever the parents' outputs are worth, they, the 1 sat/vB of the parents and the fee together pay at
/// least the fee rate for the package; the fee is no higher than needed for that, unless it is a
/// replacement that pays twice its own cost.
pub proof fn law_fee_is_what_the_package_lacks(
    entries: Seq<(u64, u64)>,
    child_vsize: u64,
    fee_rate: u64,
    is_rbf: bool,
    chain_diff_fee: u64,
    incentive: int,
)
    ensures
        ({
            let extra = chain_diff_fee + incentive;
            let fee = speedup_fee(entries, child_vsize, fee_rate, is_rbf, chain_diff_fee, incentive);
            let package = (total_vsize(entries) + child_vsize) * fee_rate;
            let held = total_amount(entries) + total_vsize(entries);
            &&& fee - extra + held >= package
            &&& fee - extra >= 0
            &&& fee - extra > 0 && !is_rbf ==> fee - extra + held == package
            &&& is_rbf && fee - extra > child_vsize * fee_rate * 2 ==> fee - extra + held == package
        }),
{
    lemma_totals_are_positive(entries);
    assert(child_vsize * fee_rate * 2 >= 0) by (nonlinear_arith)
        requires
            child_vsize >= 0,
            fee_rate >= 0,
    ;
}

/// Totals are never negative.
pub proof fn lemma_totals_are_positive(entries: Seq<(u64, u64)>)
    ensures
        total_amount(entries) >= 0,
        total_vsize(entries) >= 0,
    decreases entries.len(),
{
    if entries.len() > 0 {
        lemma_totals_are_positive(entries.drop_last());
    }
}

/// The fee of a speedup is cut to the one at which the whole package, parents and child, pays the maximal
/// rate, with the 1 sat/vB of the parents; a fee up to that is paid in full.
pub proof fn law_cap_leaves_the_maximal_package(
    fee: u64,
    max_feerate: u64,
    parent_vbytes: u64,
    child_vsize: u64,
)
    requires
        max_feerate >= 1,
    ensures
        ({
            let (paid, capped) = capped_fee(fee, max_feerate, parent_vbytes, child_vsize);
            let package = (parent_vbytes + child_vsize) * max_feerate;
            &&& capped <==> fee + parent_vbytes > package
            &&& capped ==> paid + parent_vbytes == package
            &&& !capped ==> paid == fee
        }),
{
    let all = parent_vbytes + child_vsize;
    assert(all * max_feerate >= all) by (nonlinear_arith)
        requires
            all >= 0,
            max_feerate >= 1,
    ;
}

/// The multipliers in use are ordered as the numbers they stand for: by their bits.
pub proof fn law_multipliers_are_ordered_by_their_bits(a: Multiplier, b: Multiplier)
    requires
        a.bits <= 0x7FF0_0000_0000_0000,
        b.bits <= 0x7FF0_0000_0000_0000,
    ensures
        a.greater_than(b) <==> a.bits > b.bits,
{
}

// Rates

/// The node's estimate is used as it is between the least safe rate and the maximal one; otherwise the
/// nearer of the two is used, and the least safe one when there is no estimate. News comes exactly when
/// the maximal rate cuts the wanted one.
pub proof fn law_estimate_is_used_within_bounds(settings: FeeSettings, estimate: u64)
    requires
        settings.min_safe_fee_rate <= settings.max_feerate_sat_vb,
    ensures
        settings.min_safe_fee_rate <= estimate <= settings.max_feerate_sat_vb ==> network_rate(
            settings,
            Some(estimate),
        ) == estimate && fee_news(settings, Some(estimate)) is None,
        estimate < settings.min_safe_fee_rate ==> network_rate(settings, Some(estimate))
            == settings.min_safe_fee_rate && fee_news(settings, Some(estimate)) is None,
        estimate > settings.max_feerate_sat_vb ==> network_rate(settings, Some(estimate))
            == settings.max_feerate_sat_vb && fee_news(settings, Some(estimate)) == Some(
            CoordinatorNewsView::EstimateFeerateTooHigh {
                estimated_fee_rate: estimate,
                max_fee_rate: settings.max_feerate_sat_vb,
            },
        ),
        network_rate(settings, None) == settings.min_safe_fee_rate,
        fee_news(settings, None) is None,
{
}

/// An estimate that had to be cut is on record as news, and any other leaves the store as it is.
pub proof fn law_cut_estimate_is_reported(store: StoreView, settings: FeeSettings, estimate: u64)
    requires
        settings.min_safe_fee_rate <= settings.max_feerate_sat_vb,
    ensures
        estimate <= settings.max_feerate_sat_vb ==> store.report_estimate(settings, Some(estimate)) == store,
        store.report_estimate(settings, None) == store,
        estimate > settings.max_feerate_sat_vb ==> store.report_estimate(settings, Some(estimate))
            == store.report(
            CoordinatorNewsView::EstimateFeerateTooHigh {
                estimated_fee_rate: estimate,
                max_fee_rate: settings.max_feerate_sat_vb,
            },
        ),
{
}

/// A boost pays the network rate when that outbids its predecessor, and else one sat/vB more than the
/// predecessor.
pub proof fn law_boost_rate_is_the_least_that_outbids(network: u64, predecessor: u64, other: int)
    requires
        other >= network,
        other > predecessor,
    ensures
        boost_rate(network, predecessor) <= other,
        boost_rate(network, predecessor) == network || boost_rate(network, predecessor) == predecessor + 1,
        boost_rate(network, predecessor) > predecessor,
        boost_rate(network, predecessor) >= network,
{
}

/// Every live speedup counts in the size of the chain.
pub proof fn law_every_link_counts(txs: Seq<CoordinatedTxView>, more: CoordinatedTxView)
    ensures
        chain_vsize(Seq::<CoordinatedTxView>::empty()) == 0,
        chain_vsize(txs.push(more)) == chain_vsize(txs) + more.tx.vsize(),
{
    assert(txs.push(more).drop_last() =~= txs);
}

/// What a chain lacks is the difference of the rates for all of its size: with it, a chain that pays the
/// rate of its last link pays the new rate.
pub proof fn law_shortfall_lifts_the_whole_chain(new_fee_rate: u64, txs: Seq<CoordinatedTxView>)
    requires
        txs.len() > 0,
        new_fee_rate >= txs.last().fee_info.fee_rate,
    ensures
        chain_vsize(txs) * txs.last().fee_info.fee_rate + chain_shortfall(new_fee_rate, txs)
            == chain_vsize(txs) * new_fee_rate,
{
    let size = chain_vsize(txs);
    let last = txs.last().fee_info.fee_rate as int;
    assert(size * last + size * (new_fee_rate - last) == size * new_fee_rate) by (nonlinear_arith);
}

/// Without live speedups there is no chain to lift.
pub proof fn law_no_chain_lacks_nothing(new_fee_rate: u64)
    ensures
        chain_shortfall(new_fee_rate, Seq::<CoordinatedTxView>::empty()) == 0,
{
}

/// The fee of a transaction by itself is its size at the rate: one more sat/vB costs its size, and no
/// rate costs nothing.
pub proof fn law_plain_fee_grows_with_the_rate(tx: TransactionView, fee_rate: u64)
    requires
        fee_rate < u64::MAX,
    ensures
        plain_fee(tx, 0) == 0,
        plain_fee(tx, (fee_rate + 1) as u64) == plain_fee(tx, fee_rate) + tx.vsize(),
{
    let vsize = tx.vsize();
    assert(vsize * (fee_rate + 1) == vsize * fee_rate + vsize) by (nonlinear_arith);
    assert(vsize * 0 == 0) by (nonlinear_arith);
}

/// The rates on record are those that were paid, rounded down: that of the transaction alone, and that of
/// the package with the 1 sat/vB of the parents.
pub proof fn law_recorded_rates_are_those_paid(tx: TransactionView, fee: u64, parent_vbytes: u64)
    requires
        tx.vsize() > 0,
        fee + parent_vbytes <= u64::MAX,
    ensures
        ({
            let info = paid_fee_info(tx, fee, parent_vbytes);
            let all = tx.vsize() + parent_vbytes;
            &&& info.fee == fee
            &&& info.weight == tx_weight(tx)
            &&& info.fee_rate * tx.vsize() <= fee < (info.fee_rate + 1) * tx.vsize()
            &&& info.package_fee_rate * all <= fee + parent_vbytes < (info.package_fee_rate + 1) * all
        }),
{
    let all = tx.vsize() + parent_vbytes;
    lemma_floor(fee as int, tx.vsize());
    lemma_floor(fee + parent_vbytes, all);
}

proof fn lemma_floor(a: int, b: int)
    requires
        a >= 0,
        b > 0,
    ensures
        0 <= a / b <= a,
        (a / b) * b <= a < (a / b + 1) * b,
{
    assert(0 <= a / b <= a && (a / b) * b <= a < (a / b + 1) * b) by (nonlinear_arith)
        requires
            a >= 0,
            b > 0,
    ;
}

} // verus!
