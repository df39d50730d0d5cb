use vstd::prelude::*;

verus! {

/// Context of the CPFP transactions that the coordinator builds.
pub const CPFP_TRANSACTION_CONTEXT: &'static str = "CPFP_TRANSACTION";

/// Context of the RBF transactions that the coordinator builds.
pub const RBF_TRANSACTION_CONTEXT: &'static str = "RBF_TRANSACTION";

/// Context of funding transactions.
pub const FUNDING_TRANSACTION_CONTEXT: &'static str = "FUNDING_TRANSACTION";

/// How many speedups may be unconfirmed at once. Bitcoin Core's mempool policy limits a chain of
/// unconfirmed transactions to 25.
pub const DEFAULT_MAX_UNCONFIRMED_SPEEDUPS: u32 = 10;

pub const MAX_LIMIT_UNCONFIRMED_PARENTS: u32 = 25;

/// Least number of unconfirmed transactions for a CPFP: a parent and the child.
pub const MIN_UNCONFIRMED_TXS_FOR_CPFP: u32 = 2;

/// Largest transaction weight, in weight units.
pub const DEFAULT_MAX_TX_WEIGHT: u64 = 400_000;

pub const MAX_LIMIT_TX_WEIGHT: u64 = 400_000;

/// How often one transaction may be replaced.
pub const DEFAULT_MAX_RBF_ATTEMPTS: u32 = 10;

pub const MAX_LIMIT_RBF_ATTEMPTS: u32 = 20;

/// Smallest funding UTXO, in satoshis.
pub const DEFAULT_MIN_FUNDING_AMOUNT_SATS: u64 = 10_000;

pub const MIN_LIMIT_FUNDING_AMOUNT_SATS: u64 = 10_000;

/// Blocks to wait before a speedup is boosted.
pub const DEFAULT_MIN_BLOCKS_BEFORE_RESEND_SPEEDUP: u32 = 1;

pub const MAX_MIN_BLOCKS_BEFORE_RESEND_SPEEDUP: u32 = 3;

/// Largest fee rate, in sat/vB.
pub const DEFAULT_MAX_FEERATE_SAT_VB: u64 = 1000;

pub const MAX_LIMIT_FEERATE_SAT_VB: u64 = 1000;

/// The multiplier 1.0, as bits: the least factor for fee increases.
pub const MULTIPLIER_ONE: u64 = 0x3FF0_0000_0000_0000;

/// Multiplier of the first speedup's fee: 1.0, as bits.
pub const DEFAULT_BASE_FEE_MULTIPLIER: u64 = 0x3FF0_0000_0000_0000;

/// 100.0, as bits.
pub const MAX_BASE_FEE_MULTIPLIER: u64 = 0x4059_0000_0000_0000;

/// Factor from one boost's multiplier to the next: 1.5, as bits.
pub const DEFAULT_BUMP_FEE_PERCENTAGE: u64 = 0x3FF8_0000_0000_0000;

/// 100.0, as bits.
pub const MAX_BUMP_FEE_PERCENTAGE: u64 = 0x4059_0000_0000_0000;

/// Seconds between two batches of retries.
pub const DEFAULT_RETRY_INTERVAL_SECONDS: u64 = 5;

pub const MAX_RETRY_INTERVAL_SECONDS: u64 = 300;

/// Attempts to send a transaction before it fails.
pub const DEFAULT_RETRY_ATTEMPTS_SENDING_TX: u32 = 3;

/// Least fee rate, in sat/vB; also used when the node has no estimate.
pub const DEFAULT_MIN_SAFE_FEE_RATE: u64 = 1;

/// Fee increase of a replacement: 1.5, as bits.
pub const DEFAULT_RBF_FEE_MULTIPLIER: u64 = 0x3FF8_0000_0000_0000;

/// 3.0, as bits.
pub const MAX_RBF_FEE_MULTIPLIER: u64 = 0x4008_0000_0000_0000;

/// Blocks for which a settled transaction is kept.
pub const DEFAULT_MAX_TRACKING_CONFIRMATIONS: u32 = 10;

} // verus!
