use crate::config::FeeSettings;
use crate::model::StoreView;
use crate::primitives::{tx_weight, views, Multiplier, Transaction, TransactionView};
use crate::types::{CoordinatedTx, CoordinatedTxView, CoordinatorNews, CoordinatorNewsView, FeeInfo};
use vstd::prelude::*;

verus! {

/// `a - b`, zero when `b` is larger.
pub open spec fn monus(a: int, b: int) -> int {
    if a >= b {
        a - b
    } else {
        0
    }
}

/// The fee of a transaction that pays `fee_rate` by itself.
pub open spec fn plain_fee(tx: TransactionView, fee_rate: u64) -> int {
    tx.vsize() * fee_rate
}

/// The virtual size of a chain of transactions.
pub open spec fn chain_vsize(txs: Seq<CoordinatedTxView>) -> int
    decreases txs.len(),
{
    if txs.len() == 0 {
        0
    } else {
        chain_vsize(txs.drop_last()) + txs.last().tx.vsize()
    }
}

/// What a chain lacks to pay `new_fee_rate`, taking the rate of its last transaction for all of it.
pub open spec fn chain_shortfall(new_fee_rate: u64, txs: Seq<CoordinatedTxView>) -> int {
    if txs.len() == 0 {
        0
    } else {
        chain_vsize(txs) * monus(new_fee_rate as int, txs.last().fee_info.fee_rate as int)
    }
}

/// Sum of the output amounts of `(amount, vsize)` entries.
pub open spec fn total_amount(entries: Seq<(u64, u64)>) -> int
    decreases entries.len(),
{
    if entries.len() == 0 {
        0
    } else {
        total_amount(entries.drop_last()) + entries.last().0
    }
}

/// Sum of the sizes of `(amount, vsize)` entries.
pub open spec fn total_vsize(entries: Seq<(u64, u64)>) -> int
    decreases entries.len(),
{
    if entries.len() == 0 {
        0
    } else {
        total_vsize(entries.drop_last()) + entries.last().1
    }
}

/// What a speedup pays before its multiplier is applied: the package at `fee_rate`, less the parents'
/// outputs and the 1 sat/vB that they paid themselves; for a replacement, at least twice the child's
/// own cost; plus what the chain lacks and an incentive.
pub open spec fn speedup_fee(
    entries: Seq<(u64, u64)>,
    child_vsize: u64,
    fee_rate: u64,
    is_rbf: bool,
    chain_diff_fee: u64,
    incentive: int,
) -> int {
    let package = (total_vsize(entries) + child_vsize) * fee_rate;
    let own = monus(monus(package, total_amount(entries)), total_vsize(entries));
    let floor = if is_rbf {
        child_vsize * fee_rate * 2
    } else {
        0
    };
    (if own < floor {
        floor
    } else {
        own
    }) + chain_diff_fee + incentive
}

/// Everything that `speedup_fee` adds up fits in 64 bits.
pub open spec fn speedup_fee_fits(
    entries: Seq<(u64, u64)>,
    child_vsize: u64,
    fee_rate: u64,
    is_rbf: bool,
    chain_diff_fee: u64,
    incentive: int,
) -> bool {
    &&& total_amount(entries) <= u64::MAX
    &&& total_vsize(entries) <= u64::MAX
    &&& (total_vsize(entries) + child_vsize) * fee_rate <= u64::MAX
    &&& is_rbf ==> child_vsize * fee_rate * 2 <= u64::MAX
    &&& speedup_fee(entries, child_vsize, fee_rate, is_rbf, chain_diff_fee, incentive) <= u64::MAX
}

/// The most that a speedup may pay: the whole package at the maximal rate, less what the parents paid.
pub open spec fn fee_ceiling(max_feerate: u64, parent_vbytes: u64, child_vsize: u64) -> int {
    monus((parent_vbytes + child_vsize) * max_feerate, parent_vbytes as int)
}

/// A division that gives zero for an empty divisor.
pub open spec fn rate(fee: int, vbytes: int) -> int {
    if vbytes > 0 {
        fee / vbytes
    } else {
        0
    }
}

proof fn lemma_totals_grow(entries: Seq<(u64, u64)>, i: int)
    requires
        0 <= i <= entries.len(),
    ensures
        0 <= total_amount(entries.take(i)) <= total_amount(entries),
        0 <= total_vsize(entries.take(i)) <= total_vsize(entries),
    decreases entries.len(),
{
    if i == entries.len() {
        assert(entries.take(i) =~= entries);
        if entries.len() > 0 {
            lemma_totals_grow(entries.drop_last(), i - 1);
            assert(entries.drop_last().take(i - 1) =~= entries.drop_last());
        }
    } else {
        lemma_totals_grow(entries.drop_last(), i);
        assert(entries.drop_last().take(i) =~= entries.take(i));
    }
}

proof fn lemma_chain_grows(txs: Seq<CoordinatedTxView>, i: int)
    requires
        0 <= i <= txs.len(),
    ensures
        0 <= chain_vsize(txs.take(i)) <= chain_vsize(txs),
    decreases txs.len(),
{
    if i == txs.len() {
        assert(txs.take(i) =~= txs);
        if txs.len() > 0 {
            lemma_chain_grows(txs.drop_last(), i - 1);
            assert(txs.drop_last().take(i - 1) =~= txs.drop_last());
        }
    } else {
        lemma_chain_grows(txs.drop_last(), i);
        assert(txs.drop_last().take(i) =~= txs.take(i));
    }
}

/// Computes fee rates and fees.
#[derive(Clone, Copy, Debug)]
pub struct FeeManager {
    pub settings: FeeSettings,
}

impl FeeManager {
    pub fn new(settings: FeeSettings) -> (r: Self)
        ensures
            r.settings == settings,
    {
        FeeManager { settings }
    }

    /// The fee of a recorded transaction at the network rate.
    pub fn compute_fee(&self, tx: &CoordinatedTx, network_fee_rate: u64) -> (r: FeeInfo)
        requires
            plain_fee(tx@.tx, network_fee_rate) <= u64::MAX,
        ensures
            r.fee == plain_fee(tx@.tx, network_fee_rate),
            r.fee_rate == network_fee_rate,
            r.package_fee_rate == network_fee_rate,
            r.weight == tx_weight(tx@.tx),
    {
        self.compute_fee_for_tx(&tx.tx, network_fee_rate)
    }

    /// The fee of a transaction that pays `fee_rate`.
    pub fn compute_fee_for_tx(&self, tx: &Transaction, fee_rate: u64) -> (r: FeeInfo)
        requires
            plain_fee(tx@, fee_rate) <= u64::MAX,
        ensures
            r.fee == plain_fee(tx@, fee_rate),
            r.fee_rate == fee_rate,
            r.package_fee_rate == fee_rate,
            r.weight == tx_weight(tx@),
    {
        let vsize: u64 = tx.vsize();
        FeeInfo {
            fee: vsize * fee_rate,
            fee_rate,
            package_fee_rate: fee_rate,
            weight: tx.weight(),
        }
    }

    /// `compute_fee_for_tx`, or `None` when the fee does not fit in 64 bits.
    pub fn try_fee_for_tx(&self, tx: &Transaction, fee_rate: u64) -> (r: Option<FeeInfo>)
        ensures
            match r {
                Some(info) => info.fee == plain_fee(tx@, fee_rate) && info.fee_rate == fee_rate
                    && info.package_fee_rate == fee_rate && info.weight == tx_weight(tx@),
                None => plain_fee(tx@, fee_rate) > u64::MAX,
            },
    {
        let vsize: u64 = tx.vsize();
        match vsize.checked_mul(fee_rate) {
            Some(_) => Some(self.compute_fee_for_tx(tx, fee_rate)),
            None => None,
        }
    }

    /// The rate to use for the node's `estimate`: the estimate when there is one of at least
    /// `min_safe_fee_rate`, which is used otherwise, and never more than `max_feerate_sat_vb`. A rate
    /// that had to be cut comes with news.
    pub fn get_network_fee_rate(&self, estimate: Option<u64>) -> (r: (u64, Option<CoordinatorNews>))
        ensures
            r.0 == network_rate(self.settings, estimate),
            match r.1 {
                Some(news) => fee_news(self.settings, estimate) == Some(news@),
                None => fee_news(self.settings, estimate) is None,
            },
    {
        let wanted: u64 = match estimate {
            Some(rate) => if rate >= self.settings.min_safe_fee_rate {
                rate
            } else {
                self.settings.min_safe_fee_rate
            },
            None => self.settings.min_safe_fee_rate,
        };
        if wanted > self.settings.max_feerate_sat_vb {
            (
                self.settings.max_feerate_sat_vb,
                Some(
                    CoordinatorNews::EstimateFeerateTooHigh {
                        estimated_fee_rate: wanted,
                        max_fee_rate: self.settings.max_feerate_sat_vb,
                    },
                ),
            )
        } else {
            (wanted, None)
        }
    }

    /// The multiplier of a first speedup.
    pub fn base_fee_multiplier(&self) -> (r: Multiplier)
        ensures
            r == self.settings.base_fee_multiplier,
    {
        self.settings.base_fee_multiplier
    }

    /// The extra fee that brings all `unconfirmed_speedups` up to `new_fee_rate`, and their total
    /// virtual size.
    pub fn chain_fee_diff(&self, new_fee_rate: u64, unconfirmed_speedups: &[CoordinatedTx]) -> (r: (
        u64,
        u64,
    ))
        requires
            chain_vsize(views(unconfirmed_speedups@)) <= u64::MAX,
            chain_shortfall(new_fee_rate, views(unconfirmed_speedups@)) <= u64::MAX,
        ensures
            r.0 == chain_shortfall(new_fee_rate, views(unconfirmed_speedups@)),
            r.1 == chain_vsize(views(unconfirmed_speedups@)),
    {
        match self.try_chain_fee_diff(new_fee_rate, unconfirmed_speedups) {
            Some(r) => r,
            None => (0, 0),
        }
    }

    /// `chain_fee_diff`, or `None` when the fee or the size does not fit in 64 bits.
    pub fn try_chain_fee_diff(
        &self,
        new_fee_rate: u64,
        unconfirmed_speedups: &[CoordinatedTx],
    ) -> (r: Option<(u64, u64)>)
        ensures
            match r {
                Some(d) => d.0 == chain_shortfall(new_fee_rate, views(unconfirmed_speedups@)) && d.1
                    == chain_vsize(views(unconfirmed_speedups@)),
                None => chain_shortfall(new_fee_rate, views(unconfirmed_speedups@)) > u64::MAX
                    || chain_vsize(views(unconfirmed_speedups@)) > u64::MAX,
            },
    {
        let n: usize = unconfirmed_speedups.len();
        let ghost all = views(unconfirmed_speedups@);
        if n == 0 {
            return Some((0, 0));
        }
        let mut size: u64 = 0;
        for i in 0..n
            invariant
                n == unconfirmed_speedups@.len(),
                all == views(unconfirmed_speedups@),
                size == chain_vsize(all.take(i as int)),
        {
            let vsize: u64 = unconfirmed_speedups[i].tx.vsize();
            proof {
                assert(all.take(i + 1).drop_last() =~= all.take(i as int));
                assert(all.take(i + 1).last() == unconfirmed_speedups@[i as int]@);
                lemma_chain_grows(all, i + 1);
            }
            size =
            match size.checked_add(vsize) {
                Some(sum) => sum,
                None => return None,
            };
        }
        assert(all.take(n as int) =~= all);
        let last_rate: u64 = unconfirmed_speedups[n - 1].fee_info.fee_rate;
        assert(all.last() == unconfirmed_speedups@[n - 1]@);
        match size.checked_mul(new_fee_rate.saturating_sub(last_rate)) {
            Some(fee) => Some((fee, size)),
            None => None,
        }
    }

    /// The fee of a CPFP or RBF before its multiplier is applied, or `None` when it does not fit in 64
    /// bits. `parent_entries` gives the output amount and the virtual size of each parent included. A
    /// speedup that is bumped above the base multiplier adds the size of its chain as an incentive.
    pub fn speedup_fee_before_bump(
        &self,
        parent_entries: &[(u64, u64)],
        child_vsize: u64,
        bump_fee: Multiplier,
        fee_rate: u64,
        is_rbf: bool,
        chain_diff_fee: u64,
        chain_vsize: u64,
    ) -> (r: Option<u64>)
        ensures
            ({
                let incentive = if bump_fee.greater_than(self.settings.base_fee_multiplier) {
                    chain_vsize as int
                } else {
                    0
                };
                let fits = speedup_fee_fits(
                    parent_entries@,
                    child_vsize,
                    fee_rate,
                    is_rbf,
                    chain_diff_fee,
                    incentive,
                );
                match r {
                    Some(fee) => fits && fee == speedup_fee(
                        parent_entries@,
                        child_vsize,
                        fee_rate,
                        is_rbf,
                        chain_diff_fee,
                        incentive,
                    ),
                    None => !fits,
                }
            }),
    {
        let ghost entries = parent_entries@;
        let mut amount: u64 = 0;
        let mut vbytes: u64 = 0;
        for i in 0..parent_entries.len()
            invariant
                entries == parent_entries@,
                amount == total_amount(entries.take(i as int)),
                vbytes == total_vsize(entries.take(i as int)),
        {
            proof {
                assert(entries.take(i + 1).drop_last() =~= entries.take(i as int));
                assert(entries.take(i + 1).last() == entries[i as int]);
                lemma_totals_grow(entries, i + 1);
            }
            amount =
            match amount.checked_add(parent_entries[i].0) {
                Some(sum) => sum,
                None => return None,
            };
            vbytes =
            match vbytes.checked_add(parent_entries[i].1) {
                Some(sum) => sum,
                None => return None,
            };
        }
        assert(entries.take(entries.len() as int) =~= entries);
        assert((vbytes + child_vsize) * fee_rate == vbytes * fee_rate + child_vsize * fee_rate)
            by (nonlinear_arith);
        assert(vbytes * fee_rate >= 0 && child_vsize * fee_rate >= 0) by (nonlinear_arith);
        let parent_total: u64 = match vbytes.checked_mul(fee_rate) {
            Some(sats) => sats,
            None => return None,
        };
        let child_total: u64 = match child_vsize.checked_mul(fee_rate) {
            Some(sats) => sats,
            None => return None,
        };
        let total: u64 = match parent_total.checked_add(child_total) {
            Some(sats) => sats,
            None => return None,
        };
        let mut fee: u64 = total.saturating_sub(amount).saturating_sub(vbytes);
        // A replacement pays at least its own bandwidth on top of what it replaces.
        if is_rbf {
            let floor: u64 = match child_total.checked_mul(2) {
                Some(sats) => sats,
                None => return None,
            };
            if fee < floor {
                fee = floor;
            }
        }
        fee =
        match fee.checked_add(chain_diff_fee) {
            Some(sats) => sats,
            None => return None,
        };
        if bump_fee.exceeds(self.settings.base_fee_multiplier) {
            fee =
            match fee.checked_add(chain_vsize) {
                Some(sats) => sats,
                None => return None,
            };
        }
        Some(fee)
    }

    /// Cuts a fee so that the package of a speedup and its parents pays at most `max_feerate_sat_vb`,
    /// and says whether it did.
    pub fn cap_speedup_fee(&self, fee: u64, parent_vbytes: u64, child_vsize: u64) -> (r: (u64, bool))
        ensures
            ({
                let ceiling = fee_ceiling(self.settings.max_feerate_sat_vb, parent_vbytes, child_vsize);
                if fee > ceiling {
                    r.0 == ceiling && r.1
                } else {
                    r.0 == fee && !r.1
                }
            }),
    {
        let vbytes: u128 = parent_vbytes as u128 + child_vsize as u128;
        let max: u128 = self.settings.max_feerate_sat_vb as u128;
        match vbytes.checked_mul(max) {
            Some(package) => {
                let ceiling: u128 = package.saturating_sub(parent_vbytes as u128);
                if fee as u128 > ceiling {
                    (ceiling as u64, true)
                } else {
                    (fee, false)
                }
            },
            None => (fee, false),
        }
    }

    /// The rate of a boost: the network rate, but above the rate of the speedup that it boosts.
    pub fn boost_fee_rate(network: u64, predecessor: u64) -> (r: u64)
        requires
            predecessor < u64::MAX,
        ensures
            r == if network > predecessor {
                network as int
            } else {
                predecessor + 1
            },
    {
        if network > predecessor {
            network
        } else {
            predecessor + 1
        }
    }

    /// The fee info of a speedup that paid `fee_paid`, with parents of `parent_vbytes` in all. The
    /// package rate counts the 1 sat/vB that the parents paid themselves.
    pub fn fee_info_for_paid_speedup(&self, tx: &Transaction, fee_paid: u64, parent_vbytes: u64) -> (r:
        FeeInfo)
        requires
            fee_paid + parent_vbytes <= u64::MAX,
        ensures
            r.fee == fee_paid,
            r.fee_rate == rate(fee_paid as int, tx@.vsize()),
            r.package_fee_rate == rate(fee_paid + parent_vbytes, tx@.vsize() + parent_vbytes),
            r.weight == tx_weight(tx@),
    {
        let vsize: u64 = tx.vsize();
        let weight: u64 = tx.weight();
        let fee_rate: u64 = if vsize > 0 {
            fee_paid / vsize
        } else {
            0
        };
        let paid: u128 = fee_paid as u128 + parent_vbytes as u128;
        let vbytes: u128 = vsize as u128 + parent_vbytes as u128;
        let package: u128 = if vbytes > 0 {
            paid / vbytes
        } else {
            0
        };
        assert(vbytes > 0 ==> paid / vbytes <= paid) by (nonlinear_arith);
        FeeInfo { fee: fee_paid, fee_rate, package_fee_rate: package as u64, weight }
    }
}

/// The node's estimate, or the least safe rate when there is none or it is lower.
pub open spec fn wanted_fee_rate(settings: FeeSettings, estimate: Option<u64>) -> u64 {
    match estimate {
        Some(rate) => if rate >= settings.min_safe_fee_rate {
            rate
        } else {
            settings.min_safe_fee_rate
        },
        None => settings.min_safe_fee_rate,
    }
}

/// The rate to use for an estimate.
pub open spec fn network_rate(settings: FeeSettings, estimate: Option<u64>) -> u64 {
    if wanted_fee_rate(settings, estimate) > settings.max_feerate_sat_vb {
        settings.max_feerate_sat_vb
    } else {
        wanted_fee_rate(settings, estimate)
    }
}

/// The news that an estimate was cut.
pub open spec fn fee_news(settings: FeeSettings, estimate: Option<u64>) -> Option<CoordinatorNewsView> {
    if wanted_fee_rate(settings, estimate) > settings.max_feerate_sat_vb {
        Some(
            CoordinatorNewsView::EstimateFeerateTooHigh {
                estimated_fee_rate: wanted_fee_rate(settings, estimate),
                max_fee_rate: settings.max_feerate_sat_vb,
            },
        )
    } else {
        None
    }
}

impl StoreView {
    /// Reporting that an estimate was cut, when it was.
    pub open spec fn report_estimate(self, settings: FeeSettings, estimate: Option<u64>) -> StoreView {
        match fee_news(settings, estimate) {
            Some(news) => self.report(news),
            None => self,
        }
    }
}

} // verus!
