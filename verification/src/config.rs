use crate::errors::BitcoinCoordinatorError;
use crate::primitives::Multiplier;
use crate::settings::{
    DEFAULT_BASE_FEE_MULTIPLIER, DEFAULT_BUMP_FEE_PERCENTAGE, DEFAULT_MAX_FEERATE_SAT_VB,
    DEFAULT_MAX_RBF_ATTEMPTS, DEFAULT_MAX_TRACKING_CONFIRMATIONS, DEFAULT_MAX_TX_WEIGHT,
    DEFAULT_MAX_UNCONFIRMED_SPEEDUPS, DEFAULT_MIN_BLOCKS_BEFORE_RESEND_SPEEDUP,
    DEFAULT_MIN_FUNDING_AMOUNT_SATS, DEFAULT_MIN_SAFE_FEE_RATE, DEFAULT_RBF_FEE_MULTIPLIER,
    DEFAULT_RETRY_ATTEMPTS_SENDING_TX, DEFAULT_RETRY_INTERVAL_SECONDS, MAX_BASE_FEE_MULTIPLIER,
    MAX_BUMP_FEE_PERCENTAGE, MAX_LIMIT_FEERATE_SAT_VB, MAX_LIMIT_RBF_ATTEMPTS, MAX_LIMIT_TX_WEIGHT,
    MAX_LIMIT_UNCONFIRMED_PARENTS, MAX_MIN_BLOCKS_BEFORE_RESEND_SPEEDUP, MAX_RBF_FEE_MULTIPLIER,
    MAX_RETRY_INTERVAL_SECONDS, MIN_LIMIT_FUNDING_AMOUNT_SATS, MULTIPLIER_ONE,
};
use vstd::prelude::*;

verus! {

/// Retries of failed dispatches.
#[derive(Clone, Copy, Debug)]
pub struct CoordinatorSettings {
    pub retry_interval_seconds: u64,
    pub retry_attempts_sending_tx: u32,
}

impl Default for CoordinatorSettings {
    fn default() -> (r: Self)
        ensures
            r == (CoordinatorSettings {
                retry_interval_seconds: DEFAULT_RETRY_INTERVAL_SECONDS,
                retry_attempts_sending_tx: DEFAULT_RETRY_ATTEMPTS_SENDING_TX,
            }),
    {
        CoordinatorSettings {
            retry_interval_seconds: DEFAULT_RETRY_INTERVAL_SECONDS,
            retry_attempts_sending_tx: DEFAULT_RETRY_ATTEMPTS_SENDING_TX,
        }
    }
}

/// Limits on what is broadcast.
#[derive(Clone, Copy, Debug)]
pub struct DispatcherSettings {
    pub max_tx_weight: u64,
}

impl Default for DispatcherSettings {
    fn default() -> (r: Self)
        ensures
            r == (DispatcherSettings { max_tx_weight: DEFAULT_MAX_TX_WEIGHT }),
    {
        DispatcherSettings { max_tx_weight: DEFAULT_MAX_TX_WEIGHT }
    }
}

/// Fee rates, in sat/vB, and the multiplier of the first speedup. `min_safe_fee_rate` is the fallback
/// when the node has no estimate and the least rate used.
#[derive(Clone, Copy, Debug)]
pub struct FeeSettings {
    pub max_feerate_sat_vb: u64,
    pub base_fee_multiplier: Multiplier,
    pub min_safe_fee_rate: u64,
}

impl Default for FeeSettings {
    fn default() -> (r: Self)
        ensures
            r == (FeeSettings {
                max_feerate_sat_vb: DEFAULT_MAX_FEERATE_SAT_VB,
                base_fee_multiplier: Multiplier { bits: DEFAULT_BASE_FEE_MULTIPLIER },
                min_safe_fee_rate: DEFAULT_MIN_SAFE_FEE_RATE,
            }),
    {
        FeeSettings {
            max_feerate_sat_vb: DEFAULT_MAX_FEERATE_SAT_VB,
            base_fee_multiplier: Multiplier { bits: DEFAULT_BASE_FEE_MULTIPLIER },
            min_safe_fee_rate: DEFAULT_MIN_SAFE_FEE_RATE,
        }
    }
}

/// When and how speedups are built.
#[derive(Clone, Copy, Debug)]
pub struct SpeedupSettings {
    pub max_unconfirmed_speedups: u32,
    pub max_rbf_attempts: u32,
    pub min_blocks_before_resend_speedup: u32,
    pub rbf_fee_multiplier: Multiplier,
    pub bump_fee_percentage: Multiplier,
}

impl Default for SpeedupSettings {
    fn default() -> (r: Self)
        ensures
            r == (SpeedupSettings {
                max_unconfirmed_speedups: DEFAULT_MAX_UNCONFIRMED_SPEEDUPS,
                max_rbf_attempts: DEFAULT_MAX_RBF_ATTEMPTS,
                min_blocks_before_resend_speedup: DEFAULT_MIN_BLOCKS_BEFORE_RESEND_SPEEDUP,
                rbf_fee_multiplier: Multiplier { bits: DEFAULT_RBF_FEE_MULTIPLIER },
                bump_fee_percentage: Multiplier { bits: DEFAULT_BUMP_FEE_PERCENTAGE },
            }),
    {
        SpeedupSettings {
            max_unconfirmed_speedups: DEFAULT_MAX_UNCONFIRMED_SPEEDUPS,
            max_rbf_attempts: DEFAULT_MAX_RBF_ATTEMPTS,
            min_blocks_before_resend_speedup: DEFAULT_MIN_BLOCKS_BEFORE_RESEND_SPEEDUP,
            rbf_fee_multiplier: Multiplier { bits: DEFAULT_RBF_FEE_MULTIPLIER },
            bump_fee_percentage: Multiplier { bits: DEFAULT_BUMP_FEE_PERCENTAGE },
        }
    }
}

/// Limits on funding UTXOs.
#[derive(Clone, Copy, Debug)]
pub struct FundingSettings {
    pub min_funding_amount_sats: u64,
}

impl Default for FundingSettings {
    fn default() -> (r: Self)
        ensures
            r == (FundingSettings { min_funding_amount_sats: DEFAULT_MIN_FUNDING_AMOUNT_SATS }),
    {
        FundingSettings { min_funding_amount_sats: DEFAULT_MIN_FUNDING_AMOUNT_SATS }
    }
}

/// How long settled records are kept.
#[derive(Clone, Copy, Debug)]
pub struct CoordinatorStorageSettings {
    pub max_tracking_confirmations: u32,
}

impl Default for CoordinatorStorageSettings {
    fn default() -> (r: Self)
        ensures
            r == (CoordinatorStorageSettings {
                max_tracking_confirmations: DEFAULT_MAX_TRACKING_CONFIRMATIONS,
            }),
    {
        CoordinatorStorageSettings { max_tracking_confirmations: DEFAULT_MAX_TRACKING_CONFIRMATIONS }
    }
}

/// All the settings of the coordinator.
#[derive(Clone, Copy, Debug)]
pub struct BitcoinSettings {
    pub coordinator: CoordinatorSettings,
    pub dispatcher: DispatcherSettings,
    pub fee: FeeSettings,
    pub speedup: SpeedupSettings,
    pub funding: FundingSettings,
    pub storage: CoordinatorStorageSettings,
}

impl Default for BitcoinSettings {
    fn default() -> (r: Self)
        ensures
            r == BitcoinSettings::defaults(),
            r.first_problem() is None,
    {
        BitcoinSettings {
            coordinator: CoordinatorSettings::default(),
            dispatcher: DispatcherSettings::default(),
            fee: FeeSettings::default(),
            speedup: SpeedupSettings::default(),
            funding: FundingSettings::default(),
            storage: CoordinatorStorageSettings::default(),
        }
    }
}

impl BitcoinSettings {
    /// The settings that are used when none are given.
    pub open spec fn defaults() -> BitcoinSettings {
        BitcoinSettings {
            coordinator: CoordinatorSettings {
                retry_interval_seconds: DEFAULT_RETRY_INTERVAL_SECONDS,
                retry_attempts_sending_tx: DEFAULT_RETRY_ATTEMPTS_SENDING_TX,
            },
            dispatcher: DispatcherSettings { max_tx_weight: DEFAULT_MAX_TX_WEIGHT },
            fee: FeeSettings {
                max_feerate_sat_vb: DEFAULT_MAX_FEERATE_SAT_VB,
                base_fee_multiplier: Multiplier { bits: DEFAULT_BASE_FEE_MULTIPLIER },
                min_safe_fee_rate: DEFAULT_MIN_SAFE_FEE_RATE,
            },
            speedup: SpeedupSettings {
                max_unconfirmed_speedups: DEFAULT_MAX_UNCONFIRMED_SPEEDUPS,
                max_rbf_attempts: DEFAULT_MAX_RBF_ATTEMPTS,
                min_blocks_before_resend_speedup: DEFAULT_MIN_BLOCKS_BEFORE_RESEND_SPEEDUP,
                rbf_fee_multiplier: Multiplier { bits: DEFAULT_RBF_FEE_MULTIPLIER },
                bump_fee_percentage: Multiplier { bits: DEFAULT_BUMP_FEE_PERCENTAGE },
            },
            funding: FundingSettings { min_funding_amount_sats: DEFAULT_MIN_FUNDING_AMOUNT_SATS },
            storage: CoordinatorStorageSettings {
                max_tracking_confirmations: DEFAULT_MAX_TRACKING_CONFIRMATIONS,
            },
        }
    }

    /// The first limit that the settings break, as the message that names it.
    pub open spec fn first_problem(self) -> Option<Seq<char>> {
        if !(0 < self.speedup.max_unconfirmed_speedups <= MAX_LIMIT_UNCONFIRMED_PARENTS) {
            Some("invalid max_unconfirmed_speedups"@)
        } else if !(0 < self.dispatcher.max_tx_weight <= MAX_LIMIT_TX_WEIGHT) {
            Some("invalid max_tx_weight"@)
        } else if !(0 < self.speedup.max_rbf_attempts <= MAX_LIMIT_RBF_ATTEMPTS) {
            Some("invalid max_rbf_attempts"@)
        } else if !(self.funding.min_funding_amount_sats >= MIN_LIMIT_FUNDING_AMOUNT_SATS) {
            Some("funding below dust threshold"@)
        } else if !(MULTIPLIER_ONE <= self.speedup.rbf_fee_multiplier.bits <= MAX_RBF_FEE_MULTIPLIER) {
            Some("invalid rbf_fee_multiplier"@)
        } else if !(0 < self.speedup.min_blocks_before_resend_speedup
            <= MAX_MIN_BLOCKS_BEFORE_RESEND_SPEEDUP) {
            Some("invalid min_blocks_before_resend_speedup"@)
        } else if !(0 < self.fee.max_feerate_sat_vb <= MAX_LIMIT_FEERATE_SAT_VB) {
            Some("invalid max_feerate_sat_vb"@)
        } else if !(0 < self.fee.base_fee_multiplier.bits <= MAX_BASE_FEE_MULTIPLIER) {
            Some("invalid base_fee_multiplier"@)
        } else if !(MULTIPLIER_ONE <= self.speedup.bump_fee_percentage.bits
            <= MAX_BUMP_FEE_PERCENTAGE) {
            Some("invalid bump_fee_percentage"@)
        } else if !(0 < self.coordinator.retry_interval_seconds <= MAX_RETRY_INTERVAL_SECONDS) {
            Some("invalid retry_interval_seconds"@)
        } else if !(self.fee.min_safe_fee_rate >= 1) {
            Some("min_safe_fee_rate must be at least 1 sat/vB"@)
        } else if !(self.fee.min_safe_fee_rate <= self.fee.max_feerate_sat_vb) {
            Some("min_safe_fee_rate cannot exceed max_feerate_sat_vb"@)
        } else {
            None
        }
    }

    /// Checks every limit in turn; `InvalidConfiguration` names the first one that is broken.
    pub fn validate(&self) -> (r: Result<(), BitcoinCoordinatorError>)
        ensures
            match r {
                Ok(_) => self.first_problem() is None,
                Err(e) => self.first_problem() is Some && e.is_bad_configuration(
                    self.first_problem()->0,
                ),
            },
    {
        if !(self.speedup.max_unconfirmed_speedups > 0 && self.speedup.max_unconfirmed_speedups
            <= MAX_LIMIT_UNCONFIRMED_PARENTS) {
            return bad_configuration("invalid max_unconfirmed_speedups");
        }
        if !(self.dispatcher.max_tx_weight > 0 && self.dispatcher.max_tx_weight
            <= MAX_LIMIT_TX_WEIGHT) {
            return bad_configuration("invalid max_tx_weight");
        }
        if !(self.speedup.max_rbf_attempts > 0 && self.speedup.max_rbf_attempts
            <= MAX_LIMIT_RBF_ATTEMPTS) {
            return bad_configuration("invalid max_rbf_attempts");
        }
        if !(self.funding.min_funding_amount_sats >= MIN_LIMIT_FUNDING_AMOUNT_SATS) {
            return bad_configuration("funding below dust threshold");
        }
        if !(self.speedup.rbf_fee_multiplier.bits >= MULTIPLIER_ONE
            && self.speedup.rbf_fee_multiplier.bits <= MAX_RBF_FEE_MULTIPLIER) {
            return bad_configuration("invalid rbf_fee_multiplier");
        }
        if !(self.speedup.min_blocks_before_resend_speedup > 0
            && self.speedup.min_blocks_before_resend_speedup
            <= MAX_MIN_BLOCKS_BEFORE_RESEND_SPEEDUP) {
            return bad_configuration("invalid min_blocks_before_resend_speedup");
        }
        if !(self.fee.max_feerate_sat_vb > 0 && self.fee.max_feerate_sat_vb
            <= MAX_LIMIT_FEERATE_SAT_VB) {
            return bad_configuration("invalid max_feerate_sat_vb");
        }
        if !(self.fee.base_fee_multiplier.bits > 0 && self.fee.base_fee_multiplier.bits
            <= MAX_BASE_FEE_MULTIPLIER) {
            return bad_configuration("invalid base_fee_multiplier");
        }
        if !(self.speedup.bump_fee_percentage.bits >= MULTIPLIER_ONE
            && self.speedup.bump_fee_percentage.bits <= MAX_BUMP_FEE_PERCENTAGE) {
            return bad_configuration("invalid bump_fee_percentage");
        }
        if !(self.coordinator.retry_interval_seconds > 0 && self.coordinator.retry_interval_seconds
            <= MAX_RETRY_INTERVAL_SECONDS) {
            return bad_configuration("invalid retry_interval_seconds");
        }
        if !(self.fee.min_safe_fee_rate >= 1) {
            return bad_configuration("min_safe_fee_rate must be at least 1 sat/vB");
        }
        if !(self.fee.min_safe_fee_rate <= self.fee.max_feerate_sat_vb) {
            return bad_configuration("min_safe_fee_rate cannot exceed max_feerate_sat_vb");
        }
        Ok(())
    }
}

fn bad_configuration(message: &str) -> (r: Result<(), BitcoinCoordinatorError>)
    ensures
        r is Err && r->Err_0.is_bad_configuration(message@),
{
    Err(BitcoinCoordinatorError::InvalidConfiguration(message.to_string()))
}

} // verus!
