//! A collateralized lending engine: borrowers with a tracked credit score
//! draw funds from per-asset liquidity pools against posted collateral,
//! under per-tier collateralization ratios and a liquidation safety band.
//!
//! The engine is a deterministic state machine: every public operation
//! either commits all of its effects or fails with a specific error kind
//! and no state change. The host environment (storage, caller
//! authentication, clock, price oracle) supplies timestamps, transaction
//! references and collateral valuations as plain arguments.

pub mod types;
pub mod classify;
pub mod score;
pub mod pool;
pub mod engine;

pub use engine::CredLinkContract;

pub use types::{
    TransactionType, LoanStatus, AssetClass, Error, LiquidationOutcome, TransactionRecord,
    UserProfile, LendingPool, Loan, MIN_CREDIT_SCORE, MAX_CREDIT_SCORE, DEFAULT_CREDIT_SCORE,
    ON_TIME_REWARD, LATE_PENALTY, DEFAULT_PENALTY, STABLECOIN_RATIO, XLM_RATIO,
    OTHER_ASSET_RATIO, LIQUIDATION_THRESHOLD, WARNING_THRESHOLD, BPS_DENOMINATOR,
    SECONDS_PER_DAY,
};
pub use classify::{classify, required_ratio, bytes_eq, usdc_id, usdt_id, xlm_id};
