use vstd::prelude::*;

verus! {

/// Lowest credit score a profile may ever hold.
pub const MIN_CREDIT_SCORE: u32 = 300;
/// Highest credit score a profile may ever hold.
pub const MAX_CREDIT_SCORE: u32 = 850;
/// Score given to a freshly registered profile.
pub const DEFAULT_CREDIT_SCORE: u32 = 500;

/// Score gained by an on-time repayment.
pub const ON_TIME_REWARD: u32 = 10;
/// Score lost by a late repayment.
pub const LATE_PENALTY: u32 = 20;
/// Score lost by a default (liquidation).
pub const DEFAULT_PENALTY: u32 = 100;

/// Required collateralization for stablecoin collateral, in basis points.
pub const STABLECOIN_RATIO: u32 = 11000;
/// Required collateralization for the native asset, in basis points.
pub const XLM_RATIO: u32 = 12500;
/// Required collateralization for any other asset, in basis points.
pub const OTHER_ASSET_RATIO: u32 = 15000;

/// Health ratio strictly below which an active loan is liquidated.
pub const LIQUIDATION_THRESHOLD: u32 = 10500;
/// Health ratio strictly below which an active loan is flagged unhealthy.
pub const WARNING_THRESHOLD: u32 = 11000;

/// Basis-point denominator: 10000 bp = 100%.
pub const BPS_DENOMINATOR: u64 = 10000;

/// Seconds in one day: loan durations are given in days, timestamps in seconds.
pub const SECONDS_PER_DAY: u64 = 86400;

/// Kind of a financial event recorded in a user's history. The engine
/// records `Loan`, `Repayment` and `Liquidation` events; `Payment` is
/// kept for records written by external payment flows.
#[derive(Clone, Copy, Debug, PartialEq, Eq, Structural)]
pub enum TransactionType {
    Payment,
    Loan,
    Repayment,
    Liquidation,
}

/// Lifecycle state of a loan. `Active` may move to any of the other
/// three states; all three are terminal. Repayment completes a loan
/// and liquidation seizes its collateral; `Defaulted` is kept for a
/// host that writes off a loan without a liquidation.
#[derive(Clone, Copy, Debug, PartialEq, Eq, Structural)]
pub enum LoanStatus {
    Active,
    Completed,
    Defaulted,
    Liquidated,
}

/// Collateral risk tier of an asset, derived from its identifier.
#[derive(Clone, Copy, Debug, PartialEq, Eq, Structural)]
pub enum AssetClass {
    Stablecoin,
    Native,
    Other,
}

/// Why an operation was rejected. Every error aborts the whole operation
/// with no state change. `Unauthorized` is reserved for the host's
/// caller-authentication collaborator; no operation of this library
/// produces it.
#[derive(Clone, Copy, Debug, PartialEq, Eq, Structural)]
pub enum Error {
    DuplicateUser,
    PoolAlreadyExists,
    UserNotFound,
    PoolNotFound,
    LoanNotFound,
    LoanNotActive,
    InsufficientCreditScore,
    InsufficientCollateral,
    InsufficientPoolFunds,
    InsufficientPayment,
    Unauthorized,
}

/// Verdict of a liquidation check on an active loan.
#[derive(Clone, Copy, Debug, PartialEq, Eq, Structural)]
pub enum LiquidationOutcome {
    Healthy,
    Warning,
    Liquidated,
}

/// One immutable financial event, appended to a user's history.
#[derive(Clone, Debug)]
pub struct TransactionRecord {
    pub tx_hash: Vec<u8>,
    pub timestamp: u64,
    pub tx_type: TransactionType,
    pub amount: u64,
    pub asset: Vec<u8>,
}

/// A borrower's profile, keyed by their address.
#[derive(Clone, Debug)]
pub struct UserProfile {
    pub stellar_address: Vec<u8>,
    pub credit_score: u32,
    pub total_loans_completed: u32,
    pub total_loans_defaulted: u32,
    pub on_time_payments: u32,
    pub late_payments: u32,
    pub transaction_history: Vec<TransactionRecord>,
    pub registration_date: u64,
    pub identity_verified: bool,
}

impl UserProfile {
    /// The credit score is never observed outside its bounds.
    pub open spec fn wf(self) -> bool {
        MIN_CREDIT_SCORE <= self.credit_score <= MAX_CREDIT_SCORE
    }
}

/// A per-asset liquidity pool, keyed by the asset identifier.
#[derive(Clone, Debug)]
pub struct LendingPool {
    pub asset: Vec<u8>,
    pub total_funds: u64,
    pub available_funds: u64,
    pub min_credit_score: u32,
    /// Basis points: 100 = 1%.
    pub interest_rate: u32,
    /// Days.
    pub max_loan_duration: u32,
}

impl LendingPool {
    /// Available funds never exceed total funds.
    pub open spec fn wf(self) -> bool {
        self.available_funds <= self.total_funds
    }
}

/// A single loan, keyed by its id, generated at origination.
#[derive(Clone, Debug)]
pub struct Loan {
    pub id: u64,
    pub borrower: Vec<u8>,
    /// The pool the funds were drawn from, identified by its asset.
    pub lender: Vec<u8>,
    pub amount: u64,
    pub asset: Vec<u8>,
    pub collateral_amount: u64,
    pub collateral_asset: Vec<u8>,
    /// Snapshot of the pool's rate at origination, in basis points.
    pub interest_rate: u32,
    pub start_date: u64,
    pub due_date: u64,
    pub status: LoanStatus,
}

impl Loan {
    /// Loans are never originated for a zero amount, and never due
    /// before they start.
    pub open spec fn wf(self) -> bool {
        &&& self.amount > 0
        &&& self.start_date <= self.due_date
    }
}

} // verus!
