use crate::dispatcher::{
    all_batch_views, batch_views, batch_weight, is_full_for, joined, splits_greedily,
};
use crate::engine_context::EngineContext;
use crate::errors::BitcoinCoordinatorError;
use crate::fee::{
    chain_shortfall, chain_vsize, fee_ceiling, monus, network_rate, rate, speedup_fee,
    speedup_fee_fits, FeeManager,
};
use crate::funding::{is_spare, next_funding, release};
use crate::lemmas::{lemma_filter_map_step, lemma_filter_step, lemma_find_last_step};
use crate::model::{find_first, find_last, StoreView};
use crate::primitives::{
    tx_weight, views, BlockHeight, Multiplier, OutPoint, Transaction, TransactionView, Txid,
};
use crate::settings::{CPFP_TRANSACTION_CONTEXT, RBF_TRANSACTION_CONTEXT};
use crate::speedup_engine::SpeedupEngine;
use crate::speedup_model::{
    amount_of, any_waiting, boost_target, entries_of, is_live, live_speedups, max_rate_news,
    must_replace, new_context, new_speedup, parent_data_of, parent_vbytes, total_funding, watch_new,
    ParentEntry,
};
use crate::types::{
    CoordinatedTx, CoordinatedTxView, CoordinatorNews, CoordinatorNewsView, FeeInfo, MonitorRequest,
    ParentData, SpeedupContext, SpeedupData, SpeedupKind, SpeedupKindView, TransactionState, TxKind,
    TxKindView, Utxo,
};
use vstd::prelude::*;
use vstd::string::*;

verus! {

/// A boost that is due: the speedup to boost, the live speedups, and whether the boost has to replace
/// it.
#[derive(Debug)]
pub struct BoostPlan {
    pub last: CoordinatedTx,
    pub unconfirmed: Vec<CoordinatedTx>,
    pub use_rbf: bool,
}

impl SpeedupEngine {
    /// The speedups that are live in the mempool, in creation order.
    fn live_in_mempool(&self, speedups: &[CoordinatedTx]) -> (r: Vec<CoordinatedTx>)
        ensures
            views(r@) == live_speedups(views(speedups@)),
    {
        let ghost all = views(speedups@);
        let ghost picks = is_live(all);
        let mut live: Vec<CoordinatedTx> = Vec::new();
        proof {
            reveal(Seq::filter);
            assert(views(live@) =~= all.take(0).filter(picks));
        }
        for i in 0..speedups.len()
            invariant
                all == views(speedups@),
                picks == is_live(all),
                views(live@) == all.take(i as int).filter(picks),
        {
            proof {
                lemma_filter_step(all, picks, i as int);
                assert(all[i as int] == speedups@[i as int]@);
            }
            if is_live_in_mempool(&speedups[i], speedups) {
                let ghost before = views(live@);
                live.push(speedups[i].clone());
                assert(views(live@) =~= before.push(all[i as int]));
            }
        }
        assert(all.take(all.len() as int) =~= all);
        live
    }

    /// The fifth step of a tick, first part: the boost that is due. It is when the latest live speedup
    /// has waited for long enough, its package does not pay the maximal rate yet, and no speedup waits to
    /// be dispatched. A tick in which a boost failed, see `boost_failed`, builds no other one: the speedup
    /// that it was for is reviewed first.
    pub fn boost_if_stale(
        &self,
        ctx: &EngineContext,
        current_height: BlockHeight,
        boost_failed: bool,
    ) -> (r: Option<BoostPlan>)
        requires
            ctx.wf(),
        ensures
            boost_failed ==> r is None,
            !boost_failed ==> ({
                let all = ctx.storage@.speedup_records();
                match boost_target(all, current_height, self.settings, ctx.fee_manager.settings) {
                    Some(last) => r matches Some(plan) && plan.last@ == last && views(
                        plan.unconfirmed@,
                    ) == live_speedups(all) && plan.use_rbf == must_replace(all, self.settings),
                    None => r is None,
                }
            }),
    {
        if boost_failed {
            return None;
        }
        let speedups = ctx.storage.get_speedups_ordered();
        let ghost all = views(speedups@);
        if has_waiting(speedups.as_slice()) {
            return None;
        }
        let ghost live = is_live(all);
        let mut i: usize = speedups.len();
        assert(all.take(i as int) =~= all);
        while i > 0
            invariant
                !boost_failed,
                i <= speedups@.len(),
                all == views(speedups@),
                all == ctx.storage@.speedup_records(),
                !any_waiting(all),
                live == is_live(all),
                find_last(all, live) == find_last(all.take(i as int), live),
            decreases i,
        {
            i = i - 1;
            let last = &speedups[i];
            proof {
                lemma_find_last_step(all, live, i as int);
                assert(all[i as int] == last@);
            }
            if is_live_in_mempool(last, speedups.as_slice()) {
                let broadcast: BlockHeight = match last.broadcast_block_height {
                    Some(height) => height,
                    None => return None,
                };
                if current_height.saturating_sub(broadcast)
                    < self.settings.min_blocks_before_resend_speedup {
                    return None;
                }
                if last.fee_info.package_fee_rate >= ctx.fee_manager.settings.max_feerate_sat_vb {
                    return None;
                }
                match &last.kind {
                    TxKind::Speedup(_) => {},
                    _ => return None,
                }
                let unconfirmed = self.live_in_mempool(speedups.as_slice());
                let count: usize = unconfirmed.len();
                assert(views(unconfirmed@).len() == count);
                let use_rbf = count as u64 >= self.settings.max_unconfirmed_speedups as u64;
                return Some(BoostPlan { last: last.clone(), unconfirmed, use_rbf });
            }
        }
        None
    }
}

/// What a speedup is to be built from: the parents to pay for, the inputs that a replacement inherits,
/// the multiplier, the fee rate, and what the chain of live speedups lacks to pay that rate.
#[derive(Debug)]
pub struct BuildRequest {
    pub parents: Vec<ParentEntry>,
    pub rbf_inputs: Option<Vec<Utxo>>,
    pub bump_fee: Multiplier,
    pub fee_rate: u64,
    pub chain_diff_fee: u64,
}

/// A speedup that is being built. `inherited` counts the inputs taken over from the speedup that it
/// replaces; `child_vsize` is the size that the fee is computed for, zero before the first measure.
#[derive(Debug)]
pub struct SpeedupBuild {
    pub parents: Vec<ParentEntry>,
    pub parent_vbytes: u64,
    pub is_rbf: bool,
    pub funding_inputs: Vec<Utxo>,
    pub inherited: usize,
    pub primary_is_speedup: bool,
    pub bump_fee: Multiplier,
    pub fee_rate: u64,
    pub chain_diff_fee: u64,
    pub child_vsize: u64,
}

/// What to do next with a speedup that is being built.
#[derive(Clone, Copy, Debug, PartialEq, Eq, Structural)]
pub enum BuildStep {
    /// A second input was combined: measure and price the transaction anew.
    Measure,
    /// The funding cannot pay for it; what was claimed is released.
    GiveUp,
    /// Build and sign the transaction with this fee.
    Sign { fee: u64, capped: bool },
}

/// The rate of a boost: above that of the speedup that it boosts.
pub open spec fn boost_rate(network: u64, predecessor: u64) -> int {
    if network > predecessor {
        network as int
    } else {
        predecessor + 1
    }
}

/// The sizes of the parents, with no output amount credited.
pub open spec fn sizes_only(entries: Seq<ParentEntry>) -> Seq<(u64, u64)> {
    Seq::new(entries.len(), |i: int| (0u64, entries[i].vsize))
}

impl SpeedupBuild {
    /// There is an input to pay from, and the parents' size is their sum.
    pub open spec fn wf(self) -> bool {
        &&& self.funding_inputs@.len() > 0
        &&& self.inherited <= self.funding_inputs@.len()
        &&& self.parent_vbytes == parent_vbytes(self.parents@)
    }

    /// The base fee can be computed in 64 bits.
    pub open spec fn fee_fits(self) -> bool {
        speedup_fee_fits(
            sizes_only(self.parents@),
            self.child_vsize,
            self.fee_rate,
            self.is_rbf,
            self.chain_diff_fee,
            0,
        )
    }

    /// The fee before the multiplier is applied.
    pub open spec fn base_fee(self) -> int {
        speedup_fee(
            sizes_only(self.parents@),
            self.child_vsize,
            self.fee_rate,
            self.is_rbf,
            self.chain_diff_fee,
            0,
        )
    }

    /// The inputs that were claimed for this build.
    pub open spec fn claimed(self) -> Seq<Utxo> {
        self.funding_inputs@.skip(self.inherited as int)
    }

    /// A second input may be combined with the only one.
    pub open spec fn may_combine(self) -> bool {
        self.funding_inputs@.len() == 1 && self.primary_is_speedup
    }
}

/// A fee within the ceiling, and whether it had to be cut.
pub open spec fn capped_fee(fee: u64, max_feerate: u64, parent_vbytes: u64, child_vsize: u64) -> (
    u64,
    bool,
) {
    if fee > fee_ceiling(max_feerate, parent_vbytes, child_vsize) {
        (fee_ceiling(max_feerate, parent_vbytes, child_vsize) as u64, true)
    } else {
        (fee, false)
    }
}

impl SpeedupEngine {
    /// The fifth step of a tick, second part: takes in the node's fee estimate and says what the boost is
    /// built from. `next_bump` is the multiplier of the boosted speedup, escalated. `Internal` error when
    /// the fee of the chain does not fit in 64 bits.
    pub fn boost_request(
        &self,
        ctx: &mut EngineContext,
        plan: &BoostPlan,
        estimate: Option<u64>,
        next_bump: Multiplier,
    ) -> (r: Result<BuildRequest, BitcoinCoordinatorError>)
        requires
            old(ctx).wf(),
            plan.last@.is_speedup(),
            plan.last.fee_info.package_fee_rate < u64::MAX,
        ensures
            final(ctx).keeps(*old(ctx)),
            final(ctx).storage@ == old(ctx).storage@.report_estimate(
                old(ctx).fee_manager.settings,
                estimate,
            ),
            ({
                let fee_rate = boost_rate(
                    network_rate(old(ctx).fee_manager.settings, estimate),
                    plan.last.fee_info.package_fee_rate,
                ) as u64;
                let context = plan.last@.speedup().context();
                let shortfall = chain_shortfall(fee_rate, views(plan.unconfirmed@));
                let fits = shortfall <= u64::MAX && chain_vsize(views(plan.unconfirmed@)) <= u64::MAX;
                match r {
                    Ok(request) => {
                        &&& fits
                        &&& request.fee_rate == fee_rate
                        &&& request.chain_diff_fee == shortfall
                        &&& request.bump_fee == next_bump
                        &&& request.parents@ == if plan.use_rbf {
                            entries_of(context.parent_data)
                        } else {
                            Seq::empty()
                        }
                        &&& match request.rbf_inputs {
                            Some(inputs) => plan.use_rbf && inputs@ == context.funding_inputs,
                            None => !plan.use_rbf,
                        }
                    },
                    Err(e) => !fits && e.is_internal("chain fee out of range"@),
                }
            }),
    {
        let (network, news) = ctx.fee_manager.get_network_fee_rate(estimate);
        if let Some(item) = news {
            let _ = ctx.storage.add_news(item);
        }
        let fee_rate: u64 = FeeManager::boost_fee_rate(network, plan.last.fee_info.package_fee_rate);
        let chain_diff_fee: u64 = match ctx.fee_manager.try_chain_fee_diff(
            fee_rate,
            plan.unconfirmed.as_slice(),
        ) {
            Some((fee, _)) => fee,
            None => return Err(
                BitcoinCoordinatorError::Internal("chain fee out of range".to_string()),
            ),
        };
        let mut parents: Vec<ParentEntry> = Vec::new();
        let mut rbf_inputs: Option<Vec<Utxo>> = None;
        if plan.use_rbf {
            if let TxKind::Speedup(kind) = &plan.last.kind {
                let context = kind.context();
                let data = &context.parent_data;
                for i in 0..data.len()
                    invariant
                        parents@ == entries_of(data@).take(i as int),
                {
                    parents.push(ParentEntry { data: data[i].data, vsize: data[i].vsize });
                    assert(parents@ =~= entries_of(data@).take(i + 1));
                }
                assert(parents@ =~= entries_of(data@));
                let inputs = context.funding_inputs.clone();
                assert(inputs@ =~= context.funding_inputs@);
                rbf_inputs = Some(inputs);
            }
        }
        Ok(BuildRequest { parents, rbf_inputs, bump_fee: next_bump, fee_rate, chain_diff_fee })
    }

    /// Starts to build a speedup. A replacement starts from the inputs of the speedup that it replaces;
    /// otherwise funding is claimed, and `None` is returned, with news, when there is none. `Internal`
    /// error when the size of the parents does not fit in 64 bits, `InvariantViolation` when the funding
    /// offers no output.
    pub fn begin_build(&self, ctx: &mut EngineContext, request: BuildRequest) -> (r: Result<
        Option<SpeedupBuild>,
        BitcoinCoordinatorError,
    >)
        requires
            old(ctx).wf(),
            request.rbf_inputs matches Some(inputs) ==> inputs@.len() > 0,
        ensures
            final(ctx).keeps(*old(ctx)),
            ({
                let store = old(ctx).storage@;
                let funding = next_funding(store.speedup_records(), store);
                if parent_vbytes(request.parents@) > u64::MAX {
                    r is Err && r->Err_0.is_internal("parent size out of range"@) && final(ctx).storage@
                        == store
                } else {
                    match request.rbf_inputs {
                        Some(inputs) => r matches Ok(Some(build)) && build.starts(request, inputs@)
                            && build.inherited == inputs@.len() && build.primary_is_speedup
                            == store.has_speedup(inputs@[0].txid) && final(ctx).storage@ == store,
                        None => match funding {
                            Ok(Some((source, output))) => r matches Ok(Some(build)) && build.starts(
                                request,
                                seq![output],
                            ) && build.inherited == 0 && build.primary_is_speedup
                                == source.is_speedup() && final(ctx).storage@ == store.mark_output(
                                source.txid,
                                output.vout,
                                true,
                            ),
                            Ok(None) => r matches Ok(None) && final(ctx).storage@ == store.report(
                                CoordinatorNewsView::FundingNotAvailable,
                            ),
                            Err(reason) => r is Err && r->Err_0.is_violation(reason) && final(ctx).storage@
                                == store,
                        },
                    }
                }
            }),
    {
        let size: u64 = match sum_vsizes(&request.parents) {
            Some(size) => size,
            None => return Err(
                BitcoinCoordinatorError::Internal("parent size out of range".to_string()),
            ),
        };
        let is_rbf = request.rbf_inputs.is_some();
        let (funding_inputs, inherited, primary_is_speedup): (Vec<Utxo>, usize, bool) =
            match request.rbf_inputs {
            Some(inputs) => {
                let count: usize = inputs.len();
                let derived = ctx.storage.is_speedup_derived(
                    &OutPoint { txid: inputs[0].txid, vout: inputs[0].vout },
                );
                (inputs, count, derived)
            },
            None => {
                let speedups = ctx.storage.get_speedups_ordered();
                let claimed = match ctx.funding_manager.get_funding(
                    &mut ctx.storage,
                    speedups.as_slice(),
                ) {
                    Ok(claimed) => claimed,
                    Err(e) => return Err(e),
                };
                match claimed {
                    Some((utxo, is_speedup)) => {
                        let inputs: Vec<Utxo> = vec![utxo];
                        assert(inputs@ =~= seq![utxo]);
                        (inputs, 0, is_speedup)
                    },
                    None => {
                        let _ = ctx.storage.add_news(CoordinatorNews::FundingNotAvailable);
                        return Ok(None);
                    },
                }
            },
        };
        Ok(
            Some(
                SpeedupBuild {
                    parents: request.parents,
                    parent_vbytes: size,
                    is_rbf,
                    funding_inputs,
                    inherited,
                    primary_is_speedup,
                    bump_fee: request.bump_fee,
                    fee_rate: request.fee_rate,
                    chain_diff_fee: request.chain_diff_fee,
                    child_vsize: 0,
                },
            ),
        )
    }

    /// Prices a speedup: its fee before the multiplier is applied. `measured_vsize` is the size of the
    /// transaction as built with a fee of one, and is taken over when no size is known yet. `Internal`
    /// error when the fee does not fit in 64 bits.
    pub fn price_build(&self, ctx: &EngineContext, build: &mut SpeedupBuild, measured_vsize: u64) -> (r:
        Result<u64, BitcoinCoordinatorError>)
        requires
            old(build).wf(),
        ensures
            *final(build) == (SpeedupBuild {
                child_vsize: if old(build).child_vsize == 0 {
                    measured_vsize
                } else {
                    old(build).child_vsize
                },
                ..*old(build)
            }),
            match r {
                Ok(fee) => final(build).fee_fits() && fee == final(build).base_fee(),
                Err(e) => !final(build).fee_fits() && e.is_internal("speedup fee out of range"@),
            },
    {
        if build.child_vsize == 0 {
            build.child_vsize = measured_vsize;
        }
        let mut entries: Vec<(u64, u64)> = Vec::new();
        let n: usize = build.parents.len();
        for i in 0..n
            invariant
                n == build.parents@.len(),
                entries@ == sizes_only(build.parents@).take(i as int),
        {
            entries.push((0, build.parents[i].vsize));
            assert(entries@ =~= sizes_only(build.parents@).take(i + 1));
        }
        assert(entries@ =~= sizes_only(build.parents@));
        match ctx.fee_manager.speedup_fee_before_bump(
            entries.as_slice(),
            build.child_vsize,
            build.bump_fee,
            build.fee_rate,
            build.is_rbf,
            build.chain_diff_fee,
            0,
        ) {
            Some(fee) => Ok(fee),
            None => Err(BitcoinCoordinatorError::Internal("speedup fee out of range".to_string())),
        }
    }

    /// Decides how a build goes on, with `bumped_fee` the price times the multiplier. The fee is cut to
    /// the maximal rate. When the inputs cannot pay it and leave `dust_limit`, a second input is combined
    /// if that is possible; otherwise what this build claimed is released, and inherited inputs stay
    /// claimed.
    pub fn advance_build(
        &self,
        ctx: &mut EngineContext,
        build: &mut SpeedupBuild,
        bumped_fee: u64,
        dust_limit: u64,
    ) -> (r: BuildStep)
        requires
            old(ctx).wf(),
            old(build).wf(),
            capped_fee(
                bumped_fee,
                old(ctx).fee_manager.settings.max_feerate_sat_vb,
                old(build).parent_vbytes,
                old(build).child_vsize,
            ).0 + dust_limit <= u64::MAX,
        ensures
            final(ctx).keeps(*old(ctx)),
            final(build).wf(),
            ({
                let store = old(ctx).storage@;
                let (fee, capped) = capped_fee(
                    bumped_fee,
                    old(ctx).fee_manager.settings.max_feerate_sat_vb,
                    old(build).parent_vbytes,
                    old(build).child_vsize,
                );
                let available = total_funding(old(build).funding_inputs@);
                let spare = find_first(store.funding_records(), is_spare());
                if monus(available, fee as int) >= dust_limit {
                    r == (BuildStep::Sign { fee, capped }) && *final(build) == *old(build) && final(ctx).storage@ == store
                } else if old(build).may_combine() && spare is Some {
                    &&& r is Measure
                    &&& final(build).continues(
                        *old(build),
                        old(build).funding_inputs@.push(spare->0.kind->Funding_0.utxo),
                    )
                    &&& final(ctx).storage@ == store.mark_output(
                        spare->0.txid,
                        spare->0.kind->Funding_0.utxo.vout,
                        true,
                    )
                } else {
                    &&& r is GiveUp
                    &&& *final(build) == *old(build)
                    &&& final(ctx).storage@ == release(store, old(build).claimed()).report(
                        CoordinatorNewsView::InsufficientFunds {
                            available: available as u64,
                            required: (fee + dust_limit) as u64,
                        },
                    )
                }
            }),
    {
        let (fee, capped) = ctx.fee_manager.cap_speedup_fee(
            bumped_fee,
            build.parent_vbytes,
            build.child_vsize,
        );
        let available: u128 = sum_amounts(&build.funding_inputs);
        if available.saturating_sub(fee as u128) >= dust_limit as u128 {
            return BuildStep::Sign { fee, capped };
        }
        if build.funding_inputs.len() == 1 && build.primary_is_speedup {
            if let Some(extra) = ctx.funding_manager.get_combine_funding(&mut ctx.storage) {
                build.funding_inputs.push(extra);
                build.child_vsize = 0;
                return BuildStep::Measure;
            }
        }
        let mut claimed: Vec<Utxo> = Vec::new();
        let n: usize = build.funding_inputs.len();
        for i in build.inherited..n
            invariant
                build.wf(),
                n == build.funding_inputs@.len(),
                claimed@ == build.claimed().take(i - build.inherited),
        {
            claimed.push(build.funding_inputs[i]);
            assert(claimed@ =~= build.claimed().take(i + 1 - build.inherited));
        }
        assert(claimed@ =~= build.claimed());
        ctx.funding_manager.release_marks(&mut ctx.storage, claimed.as_slice());
        let _ = ctx.storage.add_news(
            CoordinatorNews::InsufficientFunds {
                available: available as u64,
                required: fee + dust_limit,
            },
        );
        BuildStep::GiveUp
    }

    /// True when the transaction that was built is not larger than the size that its fee was computed
    /// for. Otherwise the fee has to be computed for the larger size.
    pub fn finish_build(&self, build: &mut SpeedupBuild, final_vsize: u64) -> (r: bool)
        ensures
            r == (old(build).child_vsize >= final_vsize),
            *final(build) == (SpeedupBuild {
                child_vsize: if old(build).child_vsize >= final_vsize {
                    old(build).child_vsize
                } else {
                    final_vsize
                },
                ..*old(build)
            }),
    {
        if build.child_vsize >= final_vsize {
            return true;
        }
        build.child_vsize = final_vsize;
        false
    }
}

impl SpeedupBuild {
    /// The build of a request, with these inputs, before the first measure.
    pub open spec fn starts(self, request: BuildRequest, inputs: Seq<Utxo>) -> bool {
        &&& self.wf()
        &&& self.funding_inputs@ == inputs
        &&& self.parents == request.parents
        &&& self.is_rbf == (request.rbf_inputs is Some)
        &&& self.bump_fee == request.bump_fee
        &&& self.fee_rate == request.fee_rate
        &&& self.chain_diff_fee == request.chain_diff_fee
        &&& self.child_vsize == 0
    }

    /// The same build with other inputs, to be measured anew.
    pub open spec fn continues(self, before: SpeedupBuild, inputs: Seq<Utxo>) -> bool {
        &&& self.funding_inputs@ == inputs
        &&& self.child_vsize == 0
        &&& self == (SpeedupBuild {
            funding_inputs: self.funding_inputs,
            child_vsize: 0,
            ..before
        })
    }
}

/// Total virtual size of the parents; `None` when it does not fit in 64 bits.
fn sum_vsizes(entries: &Vec<ParentEntry>) -> (r: Option<u64>)
    ensures
        match r {
            Some(size) => size == parent_vbytes(entries@),
            None => parent_vbytes(entries@) > u64::MAX,
        },
{
    let mut size: u64 = 0;
    for i in 0..entries.len()
        invariant
            size == parent_vbytes(entries@.take(i as int)),
    {
        proof {
            assert(entries@.take(i + 1).drop_last() =~= entries@.take(i as int));
            assert(entries@.take(i + 1).last() == entries@[i as int]);
            lemma_parent_vbytes_prefix(entries@, i + 1);
        }
        size =
        match size.checked_add(entries[i].vsize) {
            Some(sum) => sum,
            None => return None,
        };
    }
    assert(entries@.take(entries@.len() as int) =~= entries@);
    Some(size)
}

proof fn lemma_parent_vbytes_prefix(entries: Seq<ParentEntry>, i: int)
    requires
        0 <= i <= entries.len(),
    ensures
        0 <= parent_vbytes(entries.take(i)) <= parent_vbytes(entries),
    decreases entries.len(),
{
    if i == entries.len() {
        assert(entries.take(i) =~= entries);
        if i > 0 {
            lemma_parent_vbytes_prefix(entries.drop_last(), i - 1);
            assert(entries.drop_last().take(i - 1) =~= entries.drop_last());
        }
    } else {
        lemma_parent_vbytes_prefix(entries.drop_last(), i);
        assert(entries.drop_last().take(i) =~= entries.take(i));
    }
}

/// Total amount of UTXOs.
fn sum_amounts(utxos: &Vec<Utxo>) -> (r: u128)
    ensures
        r == total_funding(utxos@),
{
    let mut sum: u128 = 0;
    let n: usize = utxos.len();
    for i in 0..n
        invariant
            n == utxos@.len(),
            sum == total_funding(utxos@.take(i as int)),
            sum <= i * u64::MAX,
    {
        proof {
            assert(utxos@.take(i + 1).drop_last() =~= utxos@.take(i as int));
            assert(utxos@.take(i + 1).last() == utxos@[i as int]);
            assert(i * u64::MAX + u64::MAX <= u128::MAX) by (nonlinear_arith)
                requires
                    i <= u64::MAX - 1,
            ;
            assert((i + 1) * u64::MAX == i * u64::MAX + u64::MAX) by (nonlinear_arith);
        }
        sum = sum + utxos[i].amount as u128;
    }
    assert(utxos@.take(utxos@.len() as int) =~= utxos@);
    sum
}

/// A CPFP that can be built: the parents that wait for one and the live speedups.
#[derive(Debug)]
pub struct CpfpPlan {
    pub parents: Vec<CoordinatedTx>,
    pub unconfirmed: Vec<CoordinatedTx>,
}

/// The parent entry of a transaction that was registered for speedup.
pub open spec fn protocol_entry() -> spec_fn(CoordinatedTxView) -> Option<ParentEntry> {
    |tx: CoordinatedTxView|
        match tx.kind {
            TxKindView::NeedsSpeedup(data) => Some(ParentEntry { data, vsize: tx.tx.vsize() as u64 }),
            _ => None,
        }
}

/// The txids of records.
pub open spec fn txids_of(txs: Seq<CoordinatedTxView>) -> Seq<Txid> {
    Seq::new(txs.len(), |i: int| txs[i].txid)
}

/// The fee info of a speedup that paid `fee`.
pub open spec fn paid_fee_info(tx: TransactionView, fee: u64, parent_vbytes: u64) -> FeeInfo {
    FeeInfo {
        fee,
        fee_rate: rate(fee as int, tx.vsize()) as u64,
        package_fee_rate: rate(fee + parent_vbytes, tx.vsize() + parent_vbytes) as u64,
        weight: tx_weight(tx),
    }
}

impl BoostPlan {
    /// The kind of the boost: a replacement of the last speedup, or a CPFP on top of it.
    pub open spec fn kind(self, build: SpeedupBuild) -> SpeedupKindView {
        let context = new_context(build.funding_inputs@, build.bump_fee, build.parents@);
        if self.use_rbf {
            SpeedupKindView::RBF {
                replaces: self.last@.txid,
                new_funding_inputs: build.claimed(),
                context,
            }
        } else {
            SpeedupKindView::CPFP { parents: seq![self.last@.txid], context }
        }
    }
}

impl StoreView {
    /// Marking a record as paying the maximal rate, so that it is not boosted again.
    pub open spec fn mark_at_cap(self, id: Txid, max_feerate: u64) -> StoreView {
        if self.txs.contains_key(id) {
            self.put(
                CoordinatedTxView {
                    fee_info: FeeInfo { package_fee_rate: max_feerate, ..self.txs[id].fee_info },
                    ..self.txs[id]
                },
            )
        } else {
            self
        }
    }

    /// Saving a boost.
    pub open spec fn save_boost(
        self,
        plan: BoostPlan,
        build: SpeedupBuild,
        tx: TransactionView,
        fee: u64,
        capped: bool,
        height: BlockHeight,
        max_feerate: u64,
    ) -> StoreView {
        let fee_info = paid_fee_info(tx, fee, build.parent_vbytes);
        let kind = plan.kind(build);
        let saved = self.put_speedup(new_speedup(tx, fee_info, kind, height));
        if capped {
            let reported = saved.report(max_rate_news(tx, fee_info, kind));
            if plan.use_rbf {
                reported.mark_at_cap(plan.last@.txid, max_feerate)
            } else {
                reported
            }
        } else {
            saved
        }
    }

    /// Saving the CPFP of a batch of parents.
    pub open spec fn save_cpfp(
        self,
        batch: Seq<CoordinatedTxView>,
        build: SpeedupBuild,
        tx: TransactionView,
        fee: u64,
        capped: bool,
        height: BlockHeight,
    ) -> StoreView {
        let fee_info = paid_fee_info(tx, fee, build.parent_vbytes);
        let kind = cpfp_kind(batch, build);
        let unlisted = self.unlist_pending(txids_of(batch));
        let reported = if capped {
            unlisted.report(max_rate_news(tx, fee_info, kind))
        } else {
            unlisted
        };
        reported.put_speedup(new_speedup(tx, fee_info, kind, height))
    }
}

/// The kind of the CPFP of a batch of parents.
pub open spec fn cpfp_kind(batch: Seq<CoordinatedTxView>, build: SpeedupBuild) -> SpeedupKindView {
    SpeedupKindView::CPFP {
        parents: txids_of(batch),
        context: new_context(build.funding_inputs@, build.bump_fee, build.parents@),
    }
}

impl SpeedupEngine {
    /// The fifth step of a tick, last part: saves the boost to be dispatched in a later tick, and returns
    /// the request to follow it. A boost at the maximal rate is reported; when it is a replacement, the
    /// speedup that it replaces is not boosted again either. `Internal` error, with nothing changed, when
    /// the fee of the package does not fit in 64 bits.
    pub fn save_boost(
        &self,
        ctx: &mut EngineContext,
        plan: &BoostPlan,
        build: &SpeedupBuild,
        tx: Transaction,
        fee: u64,
        capped: bool,
        current_height: BlockHeight,
    ) -> (r: Result<MonitorRequest, BitcoinCoordinatorError>)
        requires
            old(ctx).wf(),
            build.wf(),
        ensures
            final(ctx).keeps(*old(ctx)),
            match r {
                Ok(request) => fee + build.parent_vbytes <= u64::MAX && request@ == watch_new(
                    tx@,
                    plan.kind(*build),
                ) && final(ctx).storage@ == old(ctx).storage@.save_boost(
                    *plan,
                    *build,
                    tx@,
                    fee,
                    capped,
                    current_height,
                    old(ctx).fee_manager.settings.max_feerate_sat_vb,
                ),
                Err(e) => fee + build.parent_vbytes > u64::MAX && e.is_internal(
                    "package fee out of range"@,
                ) && final(ctx).storage@ == old(ctx).storage@,
            },
    {
        if fee.checked_add(build.parent_vbytes).is_none() {
            return Err(BitcoinCoordinatorError::Internal("package fee out of range".to_string()));
        }
        let fee_info = ctx.fee_manager.fee_info_for_paid_speedup(&tx, fee, build.parent_vbytes);
        proof {
            lemma_rate_bound(fee as int, tx@.vsize());
            lemma_rate_bound(fee + build.parent_vbytes, tx@.vsize() + build.parent_vbytes);
        }
        assert(fee_info == paid_fee_info(tx@, fee, build.parent_vbytes));
        let context = make_speedup_context(build);
        let kind = if plan.use_rbf {
            let mut claimed: Vec<Utxo> = Vec::new();
            let n: usize = build.funding_inputs.len();
            for i in build.inherited..n
                invariant
                    build.wf(),
                    n == build.funding_inputs@.len(),
                    claimed@ == build.claimed().take(i - build.inherited),
            {
                claimed.push(build.funding_inputs[i]);
                assert(claimed@ =~= build.claimed().take(i + 1 - build.inherited));
            }
            assert(claimed@ =~= build.claimed());
            SpeedupKind::RBF { replaces: plan.last.txid, new_funding_inputs: claimed, context }
        } else {
            let parents: Vec<Txid> = vec![plan.last.txid];
            assert(parents@ =~= seq![plan.last@.txid]);
            SpeedupKind::CPFP { parents, context }
        };
        assert(kind@ == plan.kind(*build));
        let news = CoordinatorNews::MaxFeeRateReached {
            txid: tx.compute_txid(),
            effective_fee_rate: fee_info.package_fee_rate,
            context: ctx_for_kind(&kind).to_string(),
        };
        assert(news@ == max_rate_news(tx@, fee_info, kind@));
        let request = self.save_speedup(ctx, tx, fee_info, kind, current_height);
        if capped {
            let _ = ctx.storage.add_news(news);
            if plan.use_rbf {
                if let Some(found) = ctx.storage.get_tx_by_id(plan.last.txid) {
                    let mut predecessor = found;
                    predecessor.fee_info.package_fee_rate =
                    ctx.fee_manager.settings.max_feerate_sat_vb;
                    ctx.storage.update_tx(&predecessor);
                }
            }
        }
        Ok(request)
    }

    /// Saves a speedup that was just built, to be dispatched in a later tick, and returns the request to
    /// follow it.
    fn save_speedup(
        &self,
        ctx: &mut EngineContext,
        tx: Transaction,
        fee_info: FeeInfo,
        kind: SpeedupKind,
        current_height: BlockHeight,
    ) -> (r: MonitorRequest)
        requires
            old(ctx).wf(),
        ensures
            final(ctx).keeps(*old(ctx)),
            final(ctx).storage@ == old(ctx).storage@.put_speedup(
                new_speedup(tx@, fee_info, kind@, current_height),
            ),
            r@ == watch_new(tx@, kind@),
    {
        let text = ctx_for_kind(&kind);
        let txid = tx.compute_txid();
        let record = CoordinatedTx {
            txid,
            tx,
            kind: TxKind::Speedup(kind),
            state: TransactionState::ToDispatch,
            target_block_height: current_height,
            confirmation_trigger: None,
            stuck_in_mempool_blocks: None,
            settled_block_height: None,
            broadcast_block_height: None,
            fail_guard_until: None,
            retry_count: 0,
            fee_info,
            context: text.to_string(),
        };
        ctx.storage.insert_speedup(record);
        let txids: Vec<Txid> = vec![txid];
        assert(txids@ =~= seq![txid]);
        MonitorRequest::Watch {
            txids,
            context: text.to_string(),
            confirmation_trigger: None,
            search_in_mempool: false,
        }
    }

    /// The sixth step of a tick, first part: the CPFP that can be built. It can when a broadcast parent
    /// waits for one, no speedup waits to be dispatched, and there is room for an unconfirmed speedup.
    /// Parents that are gone or have failed leave the pending list.
    pub fn create_cpfp_batch(&self, ctx: &mut EngineContext) -> (r: Option<CpfpPlan>)
        requires
            old(ctx).wf(),
        ensures
            final(ctx).keeps(*old(ctx)),
            final(ctx).storage@ == old(ctx).storage@.prune_pending(),
            ({
                let ready = old(ctx).storage@.ready_parents();
                let all = old(ctx).storage@.speedup_records();
                match r {
                    Some(plan) => ready.len() > 0 && !any_waiting(all) && !must_replace(
                        all,
                        self.settings,
                    ) && views(plan.parents@) == ready && views(plan.unconfirmed@) == live_speedups(
                        all,
                    ),
                    None => ready.len() == 0 || any_waiting(all) || must_replace(all, self.settings),
                }
            }),
    {
        let parents = ctx.storage.get_pending_speedup_parents();
        assert(views(parents@).len() == parents@.len());
        if parents.len() == 0 {
            return None;
        }
        let speedups = ctx.storage.get_speedups_ordered();
        if has_waiting(speedups.as_slice()) {
            return None;
        }
        let unconfirmed = self.live_in_mempool(speedups.as_slice());
        let count: usize = unconfirmed.len();
        assert(views(unconfirmed@).len() == count);
        if count as u64 >= self.settings.max_unconfirmed_speedups as u64 {
            return None;
        }
        Some(CpfpPlan { parents, unconfirmed })
    }

    /// The sixth step of a tick, second part: takes in the node's fee estimate and chooses the parents of
    /// the CPFP: as many as fit in one transaction, from the front. `None` when none of them was
    /// registered for speedup; `Internal` error when the fee of the chain does not fit in 64 bits.
    pub fn cpfp_request(&self, ctx: &mut EngineContext, plan: &CpfpPlan, estimate: Option<u64>) -> (r:
        Result<Option<(Vec<CoordinatedTx>, BuildRequest)>, BitcoinCoordinatorError>)
        requires
            old(ctx).wf(),
            plan.parents@.len() > 0,
        ensures
            final(ctx).keeps(*old(ctx)),
            final(ctx).storage@ == old(ctx).storage@.report_estimate(
                old(ctx).fee_manager.settings,
                estimate,
            ),
            ({
                let fee_rate = network_rate(old(ctx).fee_manager.settings, estimate);
                let shortfall = chain_shortfall(fee_rate, views(plan.unconfirmed@));
                let fits = shortfall <= u64::MAX && chain_vsize(views(plan.unconfirmed@)) <= u64::MAX;
                let batch = first_batch(
                    views(plan.parents@),
                    old(ctx).dispatcher.settings.max_tx_weight,
                );
                match r {
                    Ok(Some((parents, request))) => {
                        &&& fits
                        &&& views(parents@) == batch
                        &&& request.parents@ == batch.filter_map(protocol_entry())
                        &&& request.parents@.len() > 0
                        &&& request.rbf_inputs is None
                        &&& request.bump_fee == old(ctx).fee_manager.settings.base_fee_multiplier
                        &&& request.fee_rate == fee_rate
                        &&& request.chain_diff_fee == shortfall
                    },
                    Ok(None) => fits && batch.filter_map(protocol_entry()).len() == 0,
                    Err(e) => !fits && e.is_internal("chain fee out of range"@),
                }
            }),
    {
        let (fee_rate, news) = ctx.fee_manager.get_network_fee_rate(estimate);
        if let Some(item) = news {
            let _ = ctx.storage.add_news(item);
        }
        let chain_diff_fee: u64 = match ctx.fee_manager.try_chain_fee_diff(
            fee_rate,
            plan.unconfirmed.as_slice(),
        ) {
            Some((fee, _)) => fee,
            None => return Err(
                BitcoinCoordinatorError::Internal("chain fee out of range".to_string()),
            ),
        };
        let batches = ctx.dispatcher.batch_by_weight(plan.parents.as_slice(), 1);
        proof {
            lemma_first_batch(
                all_batch_views(batches@),
                views(plan.parents@),
                ctx.dispatcher.settings.max_tx_weight,
            );
            assert(all_batch_views(batches@)[0] == batch_views(batches@[0]@));
        }
        let chosen = &batches[0];
        let ghost picked = batch_views(chosen@);
        let ghost entry = protocol_entry();
        let mut batch: Vec<CoordinatedTx> = Vec::new();
        let mut entries: Vec<ParentEntry> = Vec::new();
        assert(entries@ =~= picked.take(0).filter_map(entry));
        for i in 0..chosen.len()
            invariant
                picked == batch_views(chosen@),
                entry == protocol_entry(),
                views(batch@) == picked.take(i as int),
                entries@ == picked.take(i as int).filter_map(entry),
        {
            let parent = chosen[i];
            proof {
                lemma_filter_map_step(picked, entry, i as int);
                assert(picked[i as int] == parent@);
                assert(picked.take(i + 1) =~= picked.take(i as int).push(picked[i as int]));
            }
            if let TxKind::NeedsSpeedup(data) = &parent.kind {
                entries.push(ParentEntry { data: *data, vsize: parent.tx.vsize() });
            }
            let ghost before = views(batch@);
            batch.push(parent.clone());
            assert(views(batch@) =~= before.push(picked[i as int]));
        }
        assert(picked.take(picked.len() as int) =~= picked);
        if entries.len() == 0 {
            return Ok(None);
        }
        let bump_fee = ctx.fee_manager.base_fee_multiplier();
        Ok(
            Some(
                (
                    batch,
                    BuildRequest {
                        parents: entries,
                        rbf_inputs: None,
                        bump_fee,
                        fee_rate,
                        chain_diff_fee,
                    },
                ),
            ),
        )
    }

    /// The sixth step of a tick, last part: saves the CPFP of a batch of parents to be dispatched in a
    /// later tick, and returns the request to follow it. The parents no longer wait for a CPFP, and one at
    /// the maximal rate is reported. `Internal` error, with nothing changed, when the fee of the package
    /// does not fit in 64 bits.
    pub fn save_cpfp(
        &self,
        ctx: &mut EngineContext,
        batch: &[CoordinatedTx],
        build: &SpeedupBuild,
        tx: Transaction,
        fee: u64,
        capped: bool,
        current_height: BlockHeight,
    ) -> (r: Result<MonitorRequest, BitcoinCoordinatorError>)
        requires
            old(ctx).wf(),
            build.wf(),
        ensures
            final(ctx).keeps(*old(ctx)),
            match r {
                Ok(request) => fee + build.parent_vbytes <= u64::MAX && request@ == watch_new(
                    tx@,
                    cpfp_kind(views(batch@), *build),
                ) && final(ctx).storage@ == old(ctx).storage@.save_cpfp(
                    views(batch@),
                    *build,
                    tx@,
                    fee,
                    capped,
                    current_height,
                ),
                Err(e) => fee + build.parent_vbytes > u64::MAX && e.is_internal(
                    "package fee out of range"@,
                ) && final(ctx).storage@ == old(ctx).storage@,
            },
    {
        if fee.checked_add(build.parent_vbytes).is_none() {
            return Err(BitcoinCoordinatorError::Internal("package fee out of range".to_string()));
        }
        let ghost ids = txids_of(views(batch@));
        let mut parents: Vec<Txid> = Vec::new();
        for i in 0..batch.len()
            invariant
                ctx.keeps(*old(ctx)),
                ids == txids_of(views(batch@)),
                parents@ == ids.take(i as int),
                ctx.storage@ == old(ctx).storage@.unlist_pending(ids.take(i as int)),
        {
            let id = batch[i].txid;
            proof {
                assert(ids[i as int] == id);
                assert(ids.take(i + 1) =~= ids.take(i as int).push(id));
                assert(ids.take(i + 1).drop_last() =~= ids.take(i as int));
            }
            parents.push(id);
            ctx.storage.remove_pending_speedup_parent(id);
        }
        assert(ids.take(ids.len() as int) =~= ids);
        let fee_info = ctx.fee_manager.fee_info_for_paid_speedup(&tx, fee, build.parent_vbytes);
        proof {
            lemma_rate_bound(fee as int, tx@.vsize());
            lemma_rate_bound(fee + build.parent_vbytes, tx@.vsize() + build.parent_vbytes);
        }
        assert(fee_info == paid_fee_info(tx@, fee, build.parent_vbytes));
        let kind = SpeedupKind::CPFP { parents, context: make_speedup_context(build) };
        assert(kind@ == cpfp_kind(views(batch@), *build));
        if capped {
            let _ = ctx.storage.add_news(
                CoordinatorNews::MaxFeeRateReached {
                    txid: tx.compute_txid(),
                    effective_fee_rate: fee_info.package_fee_rate,
                    context: ctx_for_kind(&kind).to_string(),
                },
            );
        }
        Ok(self.save_speedup(ctx, tx, fee_info, kind, current_height))
    }
}

/// The number of transactions that the first batch takes.
pub open spec fn is_first_batch(parents: Seq<CoordinatedTxView>, max_weight: u64, n: int) -> bool {
    0 <= n <= parents.len() && splits_greedily(seq![parents.take(n)], parents, max_weight, 1)
}

/// The parents that fit in one batch, from the front.
pub open spec fn first_batch(parents: Seq<CoordinatedTxView>, max_weight: u64) -> Seq<CoordinatedTxView> {
    parents.take(choose|n: int| is_first_batch(parents, max_weight, n))
}

proof fn lemma_batch_weight_grows(batch: Seq<CoordinatedTxView>, i: int, j: int)
    requires
        0 <= i <= j <= batch.len(),
    ensures
        batch_weight(batch.take(i)) <= batch_weight(batch.take(j)),
    decreases j - i,
{
    if i < j {
        lemma_batch_weight_grows(batch, i, j - 1);
        assert(batch.take(j).drop_last() =~= batch.take(j - 1));
    }
}

/// What holds of the only batch: it is not empty, stays within the limit, and has no room for the next
/// parent.
proof fn lemma_only_batch(parents: Seq<CoordinatedTxView>, max_weight: u64, n: int)
    requires
        is_first_batch(parents, max_weight, n),
    ensures
        n > 0,
        n > 1 ==> batch_weight(parents.take(n)) <= max_weight,
        n < parents.len() ==> batch_weight(parents.take(n + 1)) > max_weight,
{
    let batches = seq![parents.take(n)];
    reveal_with_fuel(joined, 2);
    assert(batches.drop_last() =~= Seq::empty());
    assert(joined(batches) =~= parents.take(n));
    assert(batches[0].len() > 0);
    if n < parents.len() {
        assert(is_full_for(batches.last(), parents[n], max_weight));
        assert(parents.take(n + 1).drop_last() =~= parents.take(n));
    }
}

/// A greedy split of some parents into at most one batch consists of the first batch.
pub proof fn lemma_first_batch(
    batches: Seq<Seq<CoordinatedTxView>>,
    parents: Seq<CoordinatedTxView>,
    max_weight: u64,
)
    requires
        splits_greedily(batches, parents, max_weight, 1),
        parents.len() > 0,
    ensures
        batches.len() == 1,
        batches[0] == first_batch(parents, max_weight),
{
    reveal_with_fuel(joined, 2);
    if batches.len() == 0 {
        assert(joined(batches).len() == 0);
    } else {
        assert(batches.drop_last() =~= Seq::empty());
        assert(joined(batches) =~= batches[0]);
        let n = batches[0].len() as int;
        assert(batches =~= seq![parents.take(n)]);
        assert(is_first_batch(parents, max_weight, n));
        let m = choose|m: int| is_first_batch(parents, max_weight, m);
        lemma_only_batch(parents, max_weight, n);
        lemma_only_batch(parents, max_weight, m);
        if n < m {
            lemma_batch_weight_grows(parents, n + 1, m);
        }
        if m < n {
            lemma_batch_weight_grows(parents, m + 1, n);
        }
    }
}

/// True when the speedup is live in the mempool: not replaced and not being replaced.
fn is_live_in_mempool(tx: &CoordinatedTx, all_speedups: &[CoordinatedTx]) -> (r: bool)
    ensures
        r == is_live(views(all_speedups@))(tx@),
{
    tx.state == TransactionState::InMempool && !tx.has_live_replacement(all_speedups)
}

/// True when one of the speedups waits to be dispatched.
fn has_waiting(speedups: &[CoordinatedTx]) -> (r: bool)
    ensures
        r == any_waiting(views(speedups@)),
{
    let ghost all = views(speedups@);
    for i in 0..speedups.len()
        invariant
            all == views(speedups@),
            forall|j: int| 0 <= j < i ==> !((#[trigger] all[j]).state is ToDispatch),
    {
        assert(all[i as int] == speedups@[i as int]@);
        if speedups[i].state == TransactionState::ToDispatch {
            assert(all[i as int].state is ToDispatch);
            return true;
        }
    }
    false
}

/// The context text of the transactions of a kind.
fn ctx_for_kind(kind: &SpeedupKind) -> (r: &'static str)
    ensures
        r@ == kind@.context_text(),
{
    match kind {
        SpeedupKind::RBF { .. } => RBF_TRANSACTION_CONTEXT,
        SpeedupKind::CPFP { .. } => CPFP_TRANSACTION_CONTEXT,
    }
}

/// The context of a speedup that was just built.
fn make_speedup_context(build: &SpeedupBuild) -> (r: SpeedupContext)
    ensures
        r@ == new_context(build.funding_inputs@, build.bump_fee, build.parents@),
{
    let mut parent_data: Vec<ParentData> = Vec::new();
    for i in 0..build.parents.len()
        invariant
            parent_data@ == parent_data_of(build.parents@).take(i as int),
    {
        let entry = build.parents[i];
        parent_data.push(
            ParentData {
                data: entry.data,
                amount: amount_from_speedup_data(&entry.data),
                vsize: entry.vsize,
            },
        );
        assert(parent_data@ =~= parent_data_of(build.parents@).take(i + 1));
    }
    assert(parent_data@ =~= parent_data_of(build.parents@));
    let funding_inputs = build.funding_inputs.clone();
    assert(funding_inputs@ =~= build.funding_inputs@);
    SpeedupContext {
        funding_inputs,
        replaced_by: None,
        bump_fee_used: build.bump_fee,
        parent_data,
        spent: false,
    }
}

/// The amount of the output that speedup data is about.
fn amount_from_speedup_data(data: &SpeedupData) -> (r: u64)
    ensures
        r == amount_of(*data),
{
    match data.utxo {
        Some(utxo) => utxo.amount,
        None => match data.partial_utxo {
            Some((_, _, amount)) => amount,
            None => 0,
        },
    }
}

/// A rate is not larger than the fee.
proof fn lemma_rate_bound(fee: int, vbytes: int)
    requires
        0 <= fee,
    ensures
        0 <= rate(fee, vbytes) <= fee,
{
    if vbytes > 0 {
        assert(0 <= fee / vbytes <= fee) by (nonlinear_arith)
            requires
                0 <= fee,
                vbytes > 0,
        ;
    }
}

} // verus!
