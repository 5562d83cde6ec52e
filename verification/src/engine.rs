use vstd::prelude::*;

use crate::types::{
    UserProfile, LendingPool, Loan, TransactionRecord, TransactionType, LoanStatus, Error,
    LiquidationOutcome, DEFAULT_CREDIT_SCORE, SECONDS_PER_DAY, BPS_DENOMINATOR, LATE_PENALTY,
    DEFAULT_PENALTY, LIQUIDATION_THRESHOLD, WARNING_THRESHOLD, MIN_CREDIT_SCORE, MAX_CREDIT_SCORE,
};
use crate::classify::{
    bytes_eq, classify, collateral_meets_ratio, copy_bytes, spec_classify, collateral_sufficient,
};
use crate::pool;
use crate::pool::{
    pool_after_fund, pool_after_reserve, pool_after_repayment, pool_after_recovery, spec_interest,
    spec_owed,
};
use crate::score;
use crate::score::{spec_reward_score, spec_penalize_score};

verus! {

/// The whole engine state: the three keyed collections and the id
/// counter for loans. Each vector is an association list whose keys
/// (address, asset, loan id) are unique.
pub struct CredLinkContract {
    pub users: Vec<UserProfile>,
    pub lending_pools: Vec<LendingPool>,
    pub loans: Vec<Loan>,
    pub next_loan_id: u64,
}

/// A freshly registered profile: default score, zeroed counters, empty
/// history, not yet identity-verified.
pub open spec fn profile_fresh(p: UserProfile, addr: Seq<u8>, now: u64) -> bool {
    &&& p.stellar_address@ == addr
    &&& p.credit_score == DEFAULT_CREDIT_SCORE
    &&& p.total_loans_completed == 0
    &&& p.total_loans_defaulted == 0
    &&& p.on_time_payments == 0
    &&& p.late_payments == 0
    &&& p.transaction_history@ == Seq::<TransactionRecord>::empty()
    &&& p.registration_date == now
    &&& !p.identity_verified
}

/// A freshly created pool: both fund counters start at the initial
/// deposit.
pub open spec fn pool_fresh(
    p: LendingPool,
    asset: Seq<u8>,
    initial_funds: u64,
    interest_rate: u32,
    min_credit_score: u32,
    max_loan_duration: u32,
) -> bool {
    &&& p.asset@ == asset
    &&& p.total_funds == initial_funds
    &&& p.available_funds == initial_funds
    &&& p.min_credit_score == min_credit_score
    &&& p.interest_rate == interest_rate
    &&& p.max_loan_duration == max_loan_duration
}

/// A profile whose verification flag was set by the identity
/// collaborator; every other field is untouched.
pub open spec fn profile_with_verification(
    pre: UserProfile,
    post: UserProfile,
    verified: bool,
) -> bool {
    &&& post.stellar_address@ == pre.stellar_address@
    &&& post.credit_score == pre.credit_score
    &&& post.total_loans_completed == pre.total_loans_completed
    &&& post.total_loans_defaulted == pre.total_loans_defaulted
    &&& post.on_time_payments == pre.on_time_payments
    &&& post.late_payments == pre.late_payments
    &&& post.transaction_history@ == pre.transaction_history@
    &&& post.registration_date == pre.registration_date
    &&& post.identity_verified == verified
}

/// A profile whose only change is one event appended to its history.
pub open spec fn profile_with_record(
    pre: UserProfile,
    post: UserProfile,
    tx_hash: Seq<u8>,
    timestamp: u64,
    tx_type: TransactionType,
    amount: u64,
    asset: Seq<u8>,
) -> bool {
    &&& post.stellar_address@ == pre.stellar_address@
    &&& post.credit_score == pre.credit_score
    &&& post.total_loans_completed == pre.total_loans_completed
    &&& post.total_loans_defaulted == pre.total_loans_defaulted
    &&& post.on_time_payments == pre.on_time_payments
    &&& post.late_payments == pre.late_payments
    &&& post.registration_date == pre.registration_date
    &&& post.identity_verified == pre.identity_verified
    &&& post.transaction_history@.len() == pre.transaction_history@.len() + 1
    &&& post.transaction_history@ == pre.transaction_history@.push(
        post.transaction_history@.last(),
    )
    &&& record_is(post.transaction_history@.last(), tx_hash, timestamp, tx_type, amount, asset)
}

/// A loan as origination writes it: Active, rate and due date
/// snapshotted, drawn from the pool keyed by `asset`, which also
/// stands as the lender.
pub open spec fn loan_fresh(
    l: Loan,
    id: u64,
    borrower: Seq<u8>,
    asset: Seq<u8>,
    amount: u64,
    collateral_asset: Seq<u8>,
    collateral_amount: u64,
    rate: u32,
    start: u64,
    due: int,
) -> bool {
    &&& l.id == id
    &&& l.borrower@ == borrower
    &&& l.lender@ == asset
    &&& l.amount == amount
    &&& l.asset@ == asset
    &&& l.collateral_amount == collateral_amount
    &&& l.collateral_asset@ == collateral_asset
    &&& l.interest_rate == rate
    &&& l.start_date == start
    &&& l.due_date == due
    &&& l.status == LoanStatus::Active
}

/// A loan moved to a terminal state: every field kept, only the status
/// replaced.
pub open spec fn loan_closed(pre: Loan, post: Loan, status: LoanStatus) -> bool {
    &&& post.id == pre.id
    &&& post.borrower@ == pre.borrower@
    &&& post.lender@ == pre.lender@
    &&& post.amount == pre.amount
    &&& post.asset@ == pre.asset@
    &&& post.collateral_amount == pre.collateral_amount
    &&& post.collateral_asset@ == pre.collateral_asset@
    &&& post.interest_rate == pre.interest_rate
    &&& post.start_date == pre.start_date
    &&& post.due_date == pre.due_date
    &&& post.status == status
}

/// How a borrower's profile changes when their loan is settled in
/// full: the payment outcome (on time or late) moves the score and the
/// payment counters, the completion is counted, and a `Repayment`
/// event for the owed amount joins the history.
pub open spec fn profile_after_repayment(
    pre: UserProfile,
    post: UserProfile,
    on_time: bool,
    tx_hash: Seq<u8>,
    now: u64,
    owed: int,
    asset: Seq<u8>,
) -> bool {
    &&& post.stellar_address@ == pre.stellar_address@
    &&& post.registration_date == pre.registration_date
    &&& post.identity_verified == pre.identity_verified
    &&& post.credit_score == (if on_time {
        spec_reward_score(pre.credit_score)
    } else {
        spec_penalize_score(pre.credit_score, LATE_PENALTY)
    })
    &&& post.on_time_payments == (if on_time {
        pre.on_time_payments + 1
    } else {
        pre.on_time_payments as int
    })
    &&& post.late_payments == (if on_time {
        pre.late_payments as int
    } else {
        pre.late_payments + 1
    })
    &&& post.total_loans_completed == pre.total_loans_completed + 1
    &&& post.total_loans_defaulted == pre.total_loans_defaulted
    &&& post.transaction_history@.len() == pre.transaction_history@.len() + 1
    &&& post.transaction_history@ == pre.transaction_history@.push(
        post.transaction_history@.last(),
    )
    &&& ({
        let rec = post.transaction_history@.last();
        &&& rec.tx_hash@ == tx_hash
        &&& rec.timestamp == now
        &&& rec.tx_type == TransactionType::Repayment
        &&& rec.amount == owed
        &&& rec.asset@ == asset
    })
}

/// How a borrower's profile changes when their loan is liquidated: the
/// default is counted, the score takes the default penalty, and a
/// `Liquidation` event for the recovered value joins the history.
pub open spec fn profile_after_liquidation(
    pre: UserProfile,
    post: UserProfile,
    tx_hash: Seq<u8>,
    now: u64,
    recovered: u64,
    asset: Seq<u8>,
) -> bool {
    &&& post.stellar_address@ == pre.stellar_address@
    &&& post.registration_date == pre.registration_date
    &&& post.identity_verified == pre.identity_verified
    &&& post.credit_score == spec_penalize_score(pre.credit_score, DEFAULT_PENALTY)
    &&& post.on_time_payments == pre.on_time_payments
    &&& post.late_payments == pre.late_payments
    &&& post.total_loans_completed == pre.total_loans_completed
    &&& post.total_loans_defaulted == pre.total_loans_defaulted + 1
    &&& post.transaction_history@.len() == pre.transaction_history@.len() + 1
    &&& post.transaction_history@ == pre.transaction_history@.push(
        post.transaction_history@.last(),
    )
    &&& record_is(
        post.transaction_history@.last(),
        tx_hash,
        now,
        TransactionType::Liquidation,
        recovered,
        asset,
    )
}

/// Collateral value per unit of principal, in basis points (rounded
/// down): the health of an active loan.
pub open spec fn spec_health_ratio(collateral_value: u64, amount: u64) -> int
    recommends
        amount > 0,
{
    collateral_value * (BPS_DENOMINATOR as int) / (amount as int)
}

/// One recorded financial event, field by field.
pub open spec fn record_is(
    r: TransactionRecord,
    tx_hash: Seq<u8>,
    timestamp: u64,
    tx_type: TransactionType,
    amount: u64,
    asset: Seq<u8>,
) -> bool {
    &&& r.tx_hash@ == tx_hash
    &&& r.timestamp == timestamp
    &&& r.tx_type == tx_type
    &&& r.amount == amount
    &&& r.asset@ == asset
}

impl CredLinkContract {
    pub open spec fn has_user(self, addr: Seq<u8>) -> bool {
        exists|i: int| 0 <= i < self.users@.len() && self.users@[i].stellar_address@ == addr
    }

    pub open spec fn user_index(self, addr: Seq<u8>) -> int {
        choose|i: int| 0 <= i < self.users@.len() && self.users@[i].stellar_address@ == addr
    }

    /// The profile registered under `addr`.
    pub open spec fn user_of(self, addr: Seq<u8>) -> UserProfile {
        self.users@[self.user_index(addr)]
    }

    pub open spec fn has_pool(self, asset: Seq<u8>) -> bool {
        exists|i: int|
            0 <= i < self.lending_pools@.len() && self.lending_pools@[i].asset@ == asset
    }

    pub open spec fn pool_index(self, asset: Seq<u8>) -> int {
        choose|i: int|
            0 <= i < self.lending_pools@.len() && self.lending_pools@[i].asset@ == asset
    }

    /// The pool keyed by `asset`.
    pub open spec fn pool_of(self, asset: Seq<u8>) -> LendingPool {
        self.lending_pools@[self.pool_index(asset)]
    }

    pub open spec fn has_loan(self, id: u64) -> bool {
        exists|i: int| 0 <= i < self.loans@.len() && self.loans@[i].id == id
    }

    pub open spec fn loan_index(self, id: u64) -> int {
        choose|i: int| 0 <= i < self.loans@.len() && self.loans@[i].id == id
    }

    /// The loan keyed by `id`.
    pub open spec fn loan_of(self, id: u64) -> Loan {
        self.loans@[self.loan_index(id)]
    }

    pub open spec fn users_unique(self) -> bool {
        forall|i: int, j: int|
            0 <= i < j < self.users@.len() ==> self.users@[i].stellar_address@
                != self.users@[j].stellar_address@
    }

    pub open spec fn pools_unique(self) -> bool {
        forall|i: int, j: int|
            0 <= i < j < self.lending_pools@.len() ==> self.lending_pools@[i].asset@
                != self.lending_pools@[j].asset@
    }

    pub open spec fn loans_unique(self) -> bool {
        forall|i: int, j: int|
            0 <= i < j < self.loans@.len() ==> self.loans@[i].id != self.loans@[j].id
    }

    /// The state invariant, established by `new` and preserved by every
    /// operation: keys are unique, every entity satisfies its own
    /// invariant (scores within bounds, available funds within total
    /// funds), loan ids stay below the id counter, and every loan
    /// refers to an existing pool and a registered borrower.
    pub open spec fn wf(self) -> bool {
        &&& self.users_unique()
        &&& self.pools_unique()
        &&& self.loans_unique()
        &&& forall|i: int| 0 <= i < self.users@.len() ==> (#[trigger] self.users@[i]).wf()
        &&& forall|i: int|
            0 <= i < self.lending_pools@.len() ==> (#[trigger] self.lending_pools@[i]).wf()
        &&& forall|i: int| 0 <= i < self.loans@.len() ==> (#[trigger] self.loans@[i]).wf()
        &&& forall|i: int|
            0 <= i < self.loans@.len() ==> (#[trigger] self.loans@[i]).id < self.next_loan_id
        &&& forall|i: int|
            0 <= i < self.loans@.len() ==> self.has_pool((#[trigger] self.loans@[i]).asset@)
        &&& forall|i: int|
            0 <= i < self.loans@.len() ==> self.has_user((#[trigger] self.loans@[i]).borrower@)
    }

    /// An empty engine: no users, no pools, no loans.
    pub fn new() -> (r: CredLinkContract)
        ensures
            r.wf(),
            r.users@.len() == 0,
            r.lending_pools@.len() == 0,
            r.loans@.len() == 0,
            r.next_loan_id == 0,
    {
        CredLinkContract {
            users: Vec::new(),
            lending_pools: Vec::new(),
            loans: Vec::new(),
            next_loan_id: 0,
        }
    }

    fn find_user(&self, addr: &Vec<u8>) -> (r: Option<usize>)
        ensures
            match r {
                Some(i) => i < self.users@.len() && self.users@[i as int].stellar_address@
                    == addr@,
                None => !self.has_user(addr@),
            },
    {
        let mut k: usize = 0;
        while k < self.users.len()
            invariant
                k <= self.users@.len(),
                forall|j: int| 0 <= j < k ==> self.users@[j].stellar_address@ != addr@,
            decreases self.users@.len() - k,
        {
            if bytes_eq(&self.users[k].stellar_address, addr) {
                return Some(k);
            }
            k = k + 1;
        }
        None
    }

    fn find_pool(&self, asset: &Vec<u8>) -> (r: Option<usize>)
        ensures
            match r {
                Some(i) => i < self.lending_pools@.len() && self.lending_pools@[i as int].asset@
                    == asset@,
                None => !self.has_pool(asset@),
            },
    {
        let mut k: usize = 0;
        while k < self.lending_pools.len()
            invariant
                k <= self.lending_pools@.len(),
                forall|j: int| 0 <= j < k ==> self.lending_pools@[j].asset@ != asset@,
            decreases self.lending_pools@.len() - k,
        {
            if bytes_eq(&self.lending_pools[k].asset, asset) {
                return Some(k);
            }
            k = k + 1;
        }
        None
    }

    fn find_loan(&self, id: u64) -> (r: Option<usize>)
        ensures
            match r {
                Some(i) => i < self.loans@.len() && self.loans@[i as int].id == id,
                None => !self.has_loan(id),
            },
    {
        let mut k: usize = 0;
        while k < self.loans.len()
            invariant
                k <= self.loans@.len(),
                forall|j: int| 0 <= j < k ==> self.loans@[j].id != id,
            decreases self.loans@.len() - k,
        {
            if self.loans[k].id == id {
                return Some(k);
            }
            k = k + 1;
        }
        None
    }

    /// Registers a new borrower under exactly the supplied address.
    /// Fails with `DuplicateUser`, changing nothing, if and only if a
    /// profile already exists for that address; otherwise appends a
    /// fresh profile and touches nothing else.
    pub fn register_user(&mut self, stellar_address: Vec<u8>, now: u64) -> (r: Result<(), Error>)
        requires
            old(self).wf(),
        ensures
            final(self).wf(),
            match r {
                Ok(()) => {
                    &&& !old(self).has_user(stellar_address@)
                    &&& final(self).users@.len() == old(self).users@.len() + 1
                    &&& final(self).users@.subrange(0, old(self).users@.len() as int) == old(
                        self,
                    ).users@
                    &&& profile_fresh(final(self).users@.last(), stellar_address@, now)
                    &&& final(self).lending_pools == old(self).lending_pools
                    &&& final(self).loans == old(self).loans
                    &&& final(self).next_loan_id == old(self).next_loan_id
                },
                Err(e) => {
                    &&& e == Error::DuplicateUser
                    &&& old(self).has_user(stellar_address@)
                    &&& *final(self) == *old(self)
                },
            },
    {
        if self.find_user(&stellar_address).is_some() {
            return Err(Error::DuplicateUser);
        }
        let profile = UserProfile {
            stellar_address,
            credit_score: DEFAULT_CREDIT_SCORE,
            total_loans_completed: 0,
            total_loans_defaulted: 0,
            on_time_payments: 0,
            late_payments: 0,
            transaction_history: Vec::new(),
            registration_date: now,
            identity_verified: false,
        };
        let ghost pre = *self;
        self.users.push(profile);
        proof {
            assert(self.users@.subrange(0, pre.users@.len() as int) =~= pre.users@);
            lemma_push_user_wf(pre, *self);
        }
        Ok(())
    }

    /// Creates the liquidity pool for an asset. Fails with
    /// `PoolAlreadyExists`, changing nothing, if and only if a pool for
    /// that asset is already present; otherwise appends a pool whose
    /// total and available funds both start at `initial_funds`.
    pub fn create_lending_pool(
        &mut self,
        asset: Vec<u8>,
        initial_funds: u64,
        interest_rate: u32,
        min_credit_score: u32,
        max_loan_duration: u32,
    ) -> (r: Result<(), Error>)
        requires
            old(self).wf(),
        ensures
            final(self).wf(),
            match r {
                Ok(()) => {
                    &&& !old(self).has_pool(asset@)
                    &&& final(self).lending_pools@.len() == old(self).lending_pools@.len() + 1
                    &&& final(self).lending_pools@.subrange(
                        0,
                        old(self).lending_pools@.len() as int,
                    ) == old(self).lending_pools@
                    &&& pool_fresh(
                        final(self).lending_pools@.last(),
                        asset@,
                        initial_funds,
                        interest_rate,
                        min_credit_score,
                        max_loan_duration,
                    )
                    &&& final(self).users == old(self).users
                    &&& final(self).loans == old(self).loans
                    &&& final(self).next_loan_id == old(self).next_loan_id
                },
                Err(e) => {
                    &&& e == Error::PoolAlreadyExists
                    &&& old(self).has_pool(asset@)
                    &&& *final(self) == *old(self)
                },
            },
    {
        if self.find_pool(&asset).is_some() {
            return Err(Error::PoolAlreadyExists);
        }
        let pool = LendingPool {
            asset,
            total_funds: initial_funds,
            available_funds: initial_funds,
            min_credit_score,
            interest_rate,
            max_loan_duration,
        };
        let ghost pre = *self;
        self.lending_pools.push(pool);
        proof {
            assert(self.lending_pools@.subrange(0, pre.lending_pools@.len() as int)
                =~= pre.lending_pools@);
            lemma_push_pool_wf(pre, *self);
        }
        Ok(())
    }

    /// No overflow of a pool's totals when `amount` enters the pool
    /// keyed by `asset`: a machine limit, not a business rule.
    pub open spec fn fund_within_limits(self, asset: Seq<u8>, amount: u64) -> bool {
        self.has_pool(asset) ==> self.pool_of(asset).total_funds + amount <= u64::MAX
    }

    /// Deposits `amount` of new money into the pool keyed by `asset`:
    /// both its total and its available funds rise by `amount`. Fails
    /// with `PoolNotFound`, changing nothing, if and only if no such
    /// pool exists.
    pub fn fund_pool(&mut self, asset: Vec<u8>, amount: u64) -> (r: Result<(), Error>)
        requires
            old(self).wf(),
            old(self).fund_within_limits(asset@, amount),
        ensures
            final(self).wf(),
            match r {
                Ok(()) => ({
                    let pi = old(self).pool_index(asset@);
                    &&& old(self).has_pool(asset@)
                    &&& final(self).lending_pools@ == old(self).lending_pools@.update(
                        pi,
                        final(self).lending_pools@[pi],
                    )
                    &&& final(self).has_pool(asset@)
                    &&& final(self).pool_of(asset@) == final(self).lending_pools@[pi]
                    &&& pool_after_fund(old(self).pool_of(asset@), final(self).pool_of(asset@), amount)
                    &&& final(self).users == old(self).users
                    &&& final(self).loans == old(self).loans
                    &&& final(self).next_loan_id == old(self).next_loan_id
                }),
                Err(e) => {
                    &&& e == Error::PoolNotFound
                    &&& !old(self).has_pool(asset@)
                    &&& *final(self) == *old(self)
                },
            },
    {
        let pi = match self.find_pool(&asset) {
            None => {
                return Err(Error::PoolNotFound);
            },
            Some(pi) => pi,
        };
        proof {
            lemma_pool_index(*self, asset@, pi as int);
        }
        let ghost pre = *self;
        let p = &mut self.lending_pools[pi];
        pool::fund(p, amount);
        proof {
            lemma_keys_frame_wf(pre, *self);
            lemma_pool_index(*self, asset@, pi as int);
        }
        Ok(())
    }

    /// Sets the identity-verification flag on a profile, on behalf of
    /// the external verification collaborator. Fails with
    /// `UserNotFound`, changing nothing, if and only if no profile
    /// exists for the address.
    pub fn set_identity_verified(&mut self, stellar_address: Vec<u8>, verified: bool) -> (r:
        Result<(), Error>)
        requires
            old(self).wf(),
        ensures
            final(self).wf(),
            match r {
                Ok(()) => ({
                    let ui = old(self).user_index(stellar_address@);
                    &&& old(self).has_user(stellar_address@)
                    &&& final(self).users@ == old(self).users@.update(ui, final(self).users@[ui])
                    &&& final(self).has_user(stellar_address@)
                    &&& final(self).user_of(stellar_address@) == final(self).users@[ui]
                    &&& profile_with_verification(
                        old(self).users@[ui],
                        final(self).users@[ui],
                        verified,
                    )
                    &&& final(self).lending_pools == old(self).lending_pools
                    &&& final(self).loans == old(self).loans
                    &&& final(self).next_loan_id == old(self).next_loan_id
                }),
                Err(e) => {
                    &&& e == Error::UserNotFound
                    &&& !old(self).has_user(stellar_address@)
                    &&& *final(self) == *old(self)
                },
            },
    {
        let ui = match self.find_user(&stellar_address) {
            None => {
                return Err(Error::UserNotFound);
            },
            Some(ui) => ui,
        };
        proof {
            lemma_user_index(*self, stellar_address@, ui as int);
        }
        let ghost pre = *self;
        let u = &mut self.users[ui];
        u.identity_verified = verified;
        proof {
            lemma_keys_frame_wf(pre, *self);
            lemma_user_index(*self, stellar_address@, ui as int);
        }
        Ok(())
    }

    /// Machine limits for origination: room for one more loan id, and
    /// a due date that fits the timestamp type.
    pub open spec fn originate_within_limits(self, asset: Seq<u8>, now: u64) -> bool {
        &&& self.next_loan_id < u64::MAX
        &&& (self.has_pool(asset) ==> now + self.pool_of(asset).max_loan_duration * (
        SECONDS_PER_DAY as int) <= u64::MAX)
    }

    /// Everything a successful origination commits, all together:
    /// one fresh Active loan, `amount` reserved from the pool, one
    /// `Loan` event on the borrower's history, and nothing else.
    pub open spec fn originated(
        pre: Self,
        post: Self,
        borrower: Seq<u8>,
        asset: Seq<u8>,
        amount: u64,
        collateral_asset: Seq<u8>,
        collateral_amount: u64,
        now: u64,
        tx_hash: Seq<u8>,
        id: u64,
    ) -> bool
        recommends
            pre.has_user(borrower),
            pre.has_pool(asset),
    {
        let pi = pre.pool_index(asset);
        let ui = pre.user_index(borrower);
        let pool = pre.lending_pools@[pi];
        &&& id == pre.next_loan_id
        &&& post.next_loan_id == pre.next_loan_id + 1
        &&& post.loans@.len() == pre.loans@.len() + 1
        &&& post.loans@ == pre.loans@.push(post.loans@.last())
        &&& loan_fresh(
            post.loans@.last(),
            id,
            borrower,
            asset,
            amount,
            collateral_asset,
            collateral_amount,
            pool.interest_rate,
            now,
            now + pool.max_loan_duration * (SECONDS_PER_DAY as int),
        )
        &&& post.lending_pools@ == pre.lending_pools@.update(pi, post.lending_pools@[pi])
        &&& pool_after_reserve(pool, post.lending_pools@[pi], amount)
        &&& post.users@ == pre.users@.update(ui, post.users@[ui])
        &&& profile_with_record(
            pre.users@[ui],
            post.users@[ui],
            tx_hash,
            now,
            TransactionType::Loan,
            amount,
            asset,
        )
    }

    /// Originates a loan: checks borrower, pool, credit score,
    /// collateral tier and pool liquidity against one snapshot of the
    /// state, in that order, and commits all effects together or none.
    /// Returns the new loan's id.
    pub fn originate_loan(
        &mut self,
        borrower: Vec<u8>,
        asset: Vec<u8>,
        amount: u64,
        collateral_asset: Vec<u8>,
        collateral_amount: u64,
        now: u64,
        tx_hash: Vec<u8>,
    ) -> (r: Result<u64, Error>)
        requires
            old(self).wf(),
            amount > 0,
            old(self).originate_within_limits(asset@, now),
        ensures
            final(self).wf(),
            match r {
                Ok(id) => {
                    &&& old(self).has_user(borrower@)
                    &&& old(self).has_pool(asset@)
                    &&& old(self).user_of(borrower@).credit_score >= old(self).pool_of(
                        asset@,
                    ).min_credit_score
                    &&& collateral_sufficient(
                        collateral_amount,
                        amount,
                        spec_classify(collateral_asset@),
                    )
                    &&& amount <= old(self).pool_of(asset@).available_funds
                    &&& Self::originated(
                        *old(self),
                        *final(self),
                        borrower@,
                        asset@,
                        amount,
                        collateral_asset@,
                        collateral_amount,
                        now,
                        tx_hash@,
                        id,
                    )
                },
                Err(e) => {
                    &&& *final(self) == *old(self)
                    &&& (if !old(self).has_user(borrower@) {
                        e == Error::UserNotFound
                    } else if !old(self).has_pool(asset@) {
                        e == Error::PoolNotFound
                    } else if old(self).user_of(borrower@).credit_score < old(self).pool_of(
                        asset@,
                    ).min_credit_score {
                        e == Error::InsufficientCreditScore
                    } else if !collateral_sufficient(
                        collateral_amount,
                        amount,
                        spec_classify(collateral_asset@),
                    ) {
                        e == Error::InsufficientCollateral
                    } else {
                        e == Error::InsufficientPoolFunds && amount > old(self).pool_of(
                            asset@,
                        ).available_funds
                    })
                },
            },
    {
        let ui = match self.find_user(&borrower) {
            None => {
                return Err(Error::UserNotFound);
            },
            Some(ui) => ui,
        };
        proof {
            lemma_user_index(*self, borrower@, ui as int);
        }
        let pi = match self.find_pool(&asset) {
            None => {
                return Err(Error::PoolNotFound);
            },
            Some(pi) => pi,
        };
        proof {
            lemma_pool_index(*self, asset@, pi as int);
        }
        if self.users[ui].credit_score < self.lending_pools[pi].min_credit_score {
            return Err(Error::InsufficientCreditScore);
        }
        let tier = classify(&collateral_asset);
        if !collateral_meets_ratio(collateral_amount, amount, tier) {
            return Err(Error::InsufficientCollateral);
        }
        if amount > self.lending_pools[pi].available_funds {
            return Err(Error::InsufficientPoolFunds);
        }
        let rate = self.lending_pools[pi].interest_rate;
        let duration = self.lending_pools[pi].max_loan_duration;
        let ghost pre = *self;
        let p = &mut self.lending_pools[pi];
        let reserved = pool::reserve(p, amount);
        match reserved {
            Ok(()) => (),
            Err(_) => {
                // unreachable: the available funds were just checked
                proof {
                    assert(false);
                }
                return Err(Error::InsufficientPoolFunds);
            },
        }
        let id = self.next_loan_id;
        self.next_loan_id = id + 1;
        let duration_secs: u64 = (duration as u64) * SECONDS_PER_DAY;
        let loan = Loan {
            id,
            borrower,
            lender: copy_bytes(&asset),
            amount,
            asset: copy_bytes(&asset),
            collateral_amount,
            collateral_asset,
            interest_rate: rate,
            start_date: now,
            due_date: now + duration_secs,
            status: LoanStatus::Active,
        };
        self.loans.push(loan);
        let record = TransactionRecord {
            tx_hash,
            timestamp: now,
            tx_type: TransactionType::Loan,
            amount,
            asset,
        };
        let u = &mut self.users[ui];
        u.transaction_history.push(record);
        proof {
            lemma_originate_wf(pre, *self, pi as int, ui as int);
        }
        Ok(id)
    }

    /// Machine limits for settling a loan: the pool's total plus the
    /// interest, and the owed amount itself, fit the fund type, and the
    /// borrower's counters have room. Vacuous unless the loan exists
    /// and is active.
    pub open spec fn repay_within_limits(self, loan_id: u64) -> bool {
        (self.has_loan(loan_id) && self.loan_of(loan_id).status == LoanStatus::Active) ==> ({
            let loan = self.loan_of(loan_id);
            let pool = self.pool_of(loan.asset@);
            let user = self.user_of(loan.borrower@);
            &&& pool.total_funds + spec_interest(loan.amount, loan.interest_rate) <= u64::MAX
            &&& spec_owed(loan.amount, loan.interest_rate) <= u64::MAX
            &&& user.on_time_payments < u32::MAX
            &&& user.late_payments < u32::MAX
            &&& user.total_loans_completed < u32::MAX
        })
    }

    /// Everything a successful repayment commits, all together: the
    /// loan completed, principal and interest back in its pool, the
    /// borrower's score, counters and history updated, and nothing
    /// else.
    pub open spec fn repaid(pre: Self, post: Self, loan_id: u64, now: u64, tx_hash: Seq<u8>) -> bool
        recommends
            pre.wf(),
            pre.has_loan(loan_id),
    {
        let li = pre.loan_index(loan_id);
        let loan = pre.loans@[li];
        let pi = pre.pool_index(loan.asset@);
        let ui = pre.user_index(loan.borrower@);
        let on_time = now <= loan.due_date;
        let owed = spec_owed(loan.amount, loan.interest_rate);
        &&& post.loans@ == pre.loans@.update(li, post.loans@[li])
        &&& loan_closed(loan, post.loans@[li], LoanStatus::Completed)
        &&& post.lending_pools@ == pre.lending_pools@.update(pi, post.lending_pools@[pi])
        &&& pool_after_repayment(
            pre.lending_pools@[pi],
            post.lending_pools@[pi],
            loan.amount,
            loan.interest_rate,
        )
        &&& post.users@ == pre.users@.update(ui, post.users@[ui])
        &&& profile_after_repayment(
            pre.users@[ui],
            post.users@[ui],
            on_time,
            tx_hash,
            now,
            owed,
            loan.asset@,
        )
        &&& post.next_loan_id == pre.next_loan_id
    }

    /// Settles a loan in full. Repayment is all-or-nothing: anything
    /// below principal plus interest is rejected with
    /// `InsufficientPayment`. On success the loan becomes `Completed`,
    /// the funds return to the pool, and the borrower's profile records
    /// the outcome — on time against `now` and the due date, or late.
    pub fn repay_loan(
        &mut self,
        loan_id: u64,
        repayment_amount: u64,
        now: u64,
        tx_hash: Vec<u8>,
    ) -> (r: Result<(), Error>)
        requires
            old(self).wf(),
            old(self).repay_within_limits(loan_id),
        ensures
            final(self).wf(),
            match r {
                Ok(()) => {
                    &&& old(self).has_loan(loan_id)
                    &&& old(self).loan_of(loan_id).status == LoanStatus::Active
                    &&& repayment_amount >= spec_owed(
                        old(self).loan_of(loan_id).amount,
                        old(self).loan_of(loan_id).interest_rate,
                    )
                    &&& Self::repaid(*old(self), *final(self), loan_id, now, tx_hash@)
                },
                Err(e) => {
                    &&& *final(self) == *old(self)
                    &&& (if !old(self).has_loan(loan_id) {
                        e == Error::LoanNotFound
                    } else if old(self).loan_of(loan_id).status != LoanStatus::Active {
                        e == Error::LoanNotActive
                    } else {
                        e == Error::InsufficientPayment && repayment_amount < spec_owed(
                            old(self).loan_of(loan_id).amount,
                            old(self).loan_of(loan_id).interest_rate,
                        )
                    })
                },
            },
    {
        let li = match self.find_loan(loan_id) {
            None => {
                return Err(Error::LoanNotFound);
            },
            Some(li) => li,
        };
        proof {
            lemma_loan_index(*self, loan_id, li as int);
        }
        match self.loans[li].status {
            LoanStatus::Active => (),
            _ => {
                return Err(Error::LoanNotActive);
            },
        }
        let amount = self.loans[li].amount;
        let rate = self.loans[li].interest_rate;
        let due = self.loans[li].due_date;
        let interest128: u128 = (amount as u128) * (rate as u128) / (BPS_DENOMINATOR as u128);
        let owed128: u128 = (amount as u128) + interest128;
        if (repayment_amount as u128) < owed128 {
            return Err(Error::InsufficientPayment);
        }
        let pi = match self.find_pool(&self.loans[li].asset) {
            Some(pi) => pi,
            None => {
                // unreachable: in a well-formed state every loan's pool exists
                proof {
                    assert(self.has_pool(self.loans@[li as int].asset@));
                    assert(false);
                }
                return Err(Error::LoanNotFound);
            },
        };
        proof {
            lemma_pool_index(*self, self.loans@[li as int].asset@, pi as int);
        }
        let ui = match self.find_user(&self.loans[li].borrower) {
            Some(ui) => ui,
            None => {
                // unreachable: in a well-formed state every loan's borrower is registered
                proof {
                    assert(self.has_user(self.loans@[li as int].borrower@));
                    assert(false);
                }
                return Err(Error::LoanNotFound);
            },
        };
        proof {
            lemma_user_index(*self, self.loans@[li as int].borrower@, ui as int);
        }
        let interest: u64 = interest128 as u64;
        let owed: u64 = owed128 as u64;
        let on_time = now <= due;
        let asset_copy = copy_bytes(&self.loans[li].asset);
        let ghost pre = *self;
        let u = &mut self.users[ui];
        score::apply_payment_outcome(u, on_time);
        score::apply_completion(u);
        let record = TransactionRecord {
            tx_hash,
            timestamp: now,
            tx_type: TransactionType::Repayment,
            amount: owed,
            asset: asset_copy,
        };
        u.transaction_history.push(record);
        let p = &mut self.lending_pools[pi];
        pool::fund(p, interest);
        pool::release(p, amount);
        let l = &mut self.loans[li];
        l.status = LoanStatus::Completed;
        proof {
            lemma_keys_frame_wf(pre, *self);
        }
        Ok(())
    }

    /// Machine limits for a liquidation: the borrower's default counter
    /// has room, and any recovery beyond the principal still fits the
    /// pool's total. Vacuous unless the loan exists and is active.
    pub open spec fn liquidation_within_limits(self, loan_id: u64, recovered: u64) -> bool {
        (self.has_loan(loan_id) && self.loan_of(loan_id).status == LoanStatus::Active) ==> ({
            let loan = self.loan_of(loan_id);
            let pool = self.pool_of(loan.asset@);
            let user = self.user_of(loan.borrower@);
            &&& user.total_loans_defaulted < u32::MAX
            &&& (recovered > loan.amount ==> pool.total_funds + (recovered - loan.amount)
                <= u64::MAX)
        })
    }

    /// Everything a liquidation commits, all together: the loan
    /// liquidated, the recovered collateral value back in its pool, the
    /// borrower's default recorded, and nothing else.
    pub open spec fn liquidated(
        pre: Self,
        post: Self,
        loan_id: u64,
        recovered: u64,
        now: u64,
        tx_hash: Seq<u8>,
    ) -> bool
        recommends
            pre.wf(),
            pre.has_loan(loan_id),
    {
        let li = pre.loan_index(loan_id);
        let loan = pre.loans@[li];
        let pi = pre.pool_index(loan.asset@);
        let ui = pre.user_index(loan.borrower@);
        &&& post.loans@ == pre.loans@.update(li, post.loans@[li])
        &&& loan_closed(loan, post.loans@[li], LoanStatus::Liquidated)
        &&& post.lending_pools@ == pre.lending_pools@.update(pi, post.lending_pools@[pi])
        &&& pool_after_recovery(
            pre.lending_pools@[pi],
            post.lending_pools@[pi],
            loan.amount,
            recovered,
        )
        &&& post.users@ == pre.users@.update(ui, post.users@[ui])
        &&& profile_after_liquidation(
            pre.users@[ui],
            post.users@[ui],
            tx_hash,
            now,
            recovered,
            loan.asset@,
        )
        &&& post.next_loan_id == pre.next_loan_id
    }

    /// Forcibly closes an active loan: seizes the collateral at its
    /// oracle-supplied value `recovered_value`, returns that value to
    /// the pool, records the borrower's default, and reports the
    /// unrecovered shortfall — zero when the recovery covers the
    /// principal.
    pub fn liquidate_loan(
        &mut self,
        loan_id: u64,
        recovered_value: u64,
        now: u64,
        tx_hash: Vec<u8>,
    ) -> (r: Result<u64, Error>)
        requires
            old(self).wf(),
            old(self).liquidation_within_limits(loan_id, recovered_value),
        ensures
            final(self).wf(),
            match r {
                Ok(shortfall) => {
                    &&& old(self).has_loan(loan_id)
                    &&& old(self).loan_of(loan_id).status == LoanStatus::Active
                    &&& shortfall == (if recovered_value < old(self).loan_of(loan_id).amount {
                        old(self).loan_of(loan_id).amount - recovered_value
                    } else {
                        0int
                    })
                    &&& Self::liquidated(
                        *old(self),
                        *final(self),
                        loan_id,
                        recovered_value,
                        now,
                        tx_hash@,
                    )
                },
                Err(e) => {
                    &&& *final(self) == *old(self)
                    &&& (if !old(self).has_loan(loan_id) {
                        e == Error::LoanNotFound
                    } else {
                        e == Error::LoanNotActive && old(self).loan_of(loan_id).status
                            != LoanStatus::Active
                    })
                },
            },
    {
        let li = match self.find_loan(loan_id) {
            None => {
                return Err(Error::LoanNotFound);
            },
            Some(li) => li,
        };
        proof {
            lemma_loan_index(*self, loan_id, li as int);
        }
        match self.loans[li].status {
            LoanStatus::Active => (),
            _ => {
                return Err(Error::LoanNotActive);
            },
        }
        let amount = self.loans[li].amount;
        let pi = match self.find_pool(&self.loans[li].asset) {
            Some(pi) => pi,
            None => {
                // unreachable: in a well-formed state every loan's pool exists
                proof {
                    assert(self.has_pool(self.loans@[li as int].asset@));
                    assert(false);
                }
                return Err(Error::LoanNotFound);
            },
        };
        proof {
            lemma_pool_index(*self, self.loans@[li as int].asset@, pi as int);
        }
        let ui = match self.find_user(&self.loans[li].borrower) {
            Some(ui) => ui,
            None => {
                // unreachable: in a well-formed state every loan's borrower is registered
                proof {
                    assert(self.has_user(self.loans@[li as int].borrower@));
                    assert(false);
                }
                return Err(Error::LoanNotFound);
            },
        };
        proof {
            lemma_user_index(*self, self.loans@[li as int].borrower@, ui as int);
        }
        let asset_copy = copy_bytes(&self.loans[li].asset);
        let ghost pre = *self;
        let u = &mut self.users[ui];
        score::apply_default(u);
        let record = TransactionRecord {
            tx_hash,
            timestamp: now,
            tx_type: TransactionType::Liquidation,
            amount: recovered_value,
            asset: asset_copy,
        };
        u.transaction_history.push(record);
        let p = &mut self.lending_pools[pi];
        if recovered_value > amount {
            pool::fund(p, recovered_value - amount);
            pool::release(p, amount);
        } else {
            pool::release(p, recovered_value);
        }
        let l = &mut self.loans[li];
        l.status = LoanStatus::Liquidated;
        proof {
            lemma_keys_frame_wf(pre, *self);
        }
        if recovered_value < amount {
            Ok(amount - recovered_value)
        } else {
            Ok(0)
        }
    }

    /// Evaluates an active loan's collateral health against the
    /// oracle-supplied valuation. At or above the warning threshold the
    /// loan is healthy; strictly below the liquidation threshold it is
    /// liquidated on the spot, with the valuation as the recovered
    /// value; in between, a warning is returned and nothing changes.
    pub fn evaluate_liquidation(
        &mut self,
        loan_id: u64,
        current_collateral_value: u64,
        now: u64,
        tx_hash: Vec<u8>,
    ) -> (r: Result<LiquidationOutcome, Error>)
        requires
            old(self).wf(),
            old(self).liquidation_within_limits(loan_id, current_collateral_value),
        ensures
            final(self).wf(),
            match r {
                Ok(outcome) => {
                    &&& old(self).has_loan(loan_id)
                    &&& old(self).loan_of(loan_id).status == LoanStatus::Active
                    &&& ({
                        let health = spec_health_ratio(
                            current_collateral_value,
                            old(self).loan_of(loan_id).amount,
                        );
                        match outcome {
                            LiquidationOutcome::Healthy => health >= WARNING_THRESHOLD
                                && *final(self) == *old(self),
                            LiquidationOutcome::Warning => LIQUIDATION_THRESHOLD <= health
                                < WARNING_THRESHOLD && *final(self) == *old(self),
                            LiquidationOutcome::Liquidated => health < LIQUIDATION_THRESHOLD
                                && Self::liquidated(
                                *old(self),
                                *final(self),
                                loan_id,
                                current_collateral_value,
                                now,
                                tx_hash@,
                            ),
                        }
                    })
                },
                Err(e) => {
                    &&& *final(self) == *old(self)
                    &&& (if !old(self).has_loan(loan_id) {
                        e == Error::LoanNotFound
                    } else {
                        e == Error::LoanNotActive && old(self).loan_of(loan_id).status
                            != LoanStatus::Active
                    })
                },
            },
    {
        let li = match self.find_loan(loan_id) {
            None => {
                return Err(Error::LoanNotFound);
            },
            Some(li) => li,
        };
        proof {
            lemma_loan_index(*self, loan_id, li as int);
        }
        match self.loans[li].status {
            LoanStatus::Active => (),
            _ => {
                return Err(Error::LoanNotActive);
            },
        }
        let amount = self.loans[li].amount;
        let health128: u128 = (current_collateral_value as u128) * (BPS_DENOMINATOR as u128) / (
        amount as u128);
        if health128 >= (WARNING_THRESHOLD as u128) {
            return Ok(LiquidationOutcome::Healthy);
        }
        if health128 >= (LIQUIDATION_THRESHOLD as u128) {
            return Ok(LiquidationOutcome::Warning);
        }
        match self.liquidate_loan(loan_id, current_collateral_value, now, tx_hash) {
            Ok(_) => Ok(LiquidationOutcome::Liquidated),
            Err(_) => {
                // unreachable: the loan was just found and checked active
                proof {
                    assert(false);
                }
                Err(Error::LoanNotActive)
            },
        }
    }

    /// The profile registered under the address, if any.
    pub fn get_user(&self, stellar_address: &Vec<u8>) -> (r: Option<&UserProfile>)
        requires
            self.wf(),
        ensures
            match r {
                Some(p) => self.has_user(stellar_address@) && *p == self.user_of(
                    stellar_address@,
                ),
                None => !self.has_user(stellar_address@),
            },
    {
        match self.find_user(stellar_address) {
            Some(i) => {
                proof {
                    lemma_user_index(*self, stellar_address@, i as int);
                }
                Some(&self.users[i])
            },
            None => None,
        }
    }

    /// The pool keyed by the asset, if any.
    pub fn get_pool(&self, asset: &Vec<u8>) -> (r: Option<&LendingPool>)
        requires
            self.wf(),
        ensures
            match r {
                Some(p) => self.has_pool(asset@) && *p == self.pool_of(asset@),
                None => !self.has_pool(asset@),
            },
    {
        match self.find_pool(asset) {
            Some(i) => {
                proof {
                    lemma_pool_index(*self, asset@, i as int);
                }
                Some(&self.lending_pools[i])
            },
            None => None,
        }
    }

    /// The loan keyed by the id, if any.
    pub fn get_loan(&self, loan_id: u64) -> (r: Option<&Loan>)
        requires
            self.wf(),
        ensures
            match r {
                Some(l) => self.has_loan(loan_id) && *l == self.loan_of(loan_id),
                None => !self.has_loan(loan_id),
            },
    {
        match self.find_loan(loan_id) {
            Some(i) => {
                proof {
                    lemma_loan_index(*self, loan_id, i as int);
                }
                Some(&self.loans[i])
            },
            None => None,
        }
    }
}

/// Law: in every well-formed state — and every operation of the engine
/// both requires and ensures well-formedness — every profile's credit
/// score lies within the score bounds.
pub proof fn lemma_scores_always_bounded(s: CredLinkContract)
    requires
        s.wf(),
    ensures
        forall|i: int|
            0 <= i < s.users@.len() ==> MIN_CREDIT_SCORE <= (#[trigger] s.users@[i]).credit_score
                <= MAX_CREDIT_SCORE,
{
}

/// Law: in every well-formed state — and every operation of the engine
/// both requires and ensures well-formedness — every pool's available
/// funds lie between zero and its total funds.
pub proof fn lemma_pool_funds_always_bounded(s: CredLinkContract)
    requires
        s.wf(),
    ensures
        forall|i: int|
            0 <= i < s.lending_pools@.len() ==> 0 <= (
            #[trigger] s.lending_pools@[i]).available_funds <= s.lending_pools@[i].total_funds,
{
}

/// With unique addresses, an index holding `addr` is the index the
/// accessors denote.
pub proof fn lemma_user_index(s: CredLinkContract, addr: Seq<u8>, i: int)
    requires
        s.users_unique(),
        0 <= i < s.users@.len(),
        s.users@[i].stellar_address@ == addr,
    ensures
        s.has_user(addr),
        s.user_index(addr) == i,
        s.user_of(addr) == s.users@[i],
{
    assert(s.has_user(addr));
    let j = s.user_index(addr);
    assert(0 <= j < s.users@.len() && s.users@[j].stellar_address@ == addr);
    if i < j {
        assert(s.users@[i].stellar_address@ != s.users@[j].stellar_address@);
    } else if j < i {
        assert(s.users@[j].stellar_address@ != s.users@[i].stellar_address@);
    }
}

/// With unique assets, an index holding `asset` is the index the
/// accessors denote.
pub proof fn lemma_pool_index(s: CredLinkContract, asset: Seq<u8>, i: int)
    requires
        s.pools_unique(),
        0 <= i < s.lending_pools@.len(),
        s.lending_pools@[i].asset@ == asset,
    ensures
        s.has_pool(asset),
        s.pool_index(asset) == i,
        s.pool_of(asset) == s.lending_pools@[i],
{
    assert(s.has_pool(asset));
    let j = s.pool_index(asset);
    assert(0 <= j < s.lending_pools@.len() && s.lending_pools@[j].asset@ == asset);
    if i < j {
        assert(s.lending_pools@[i].asset@ != s.lending_pools@[j].asset@);
    } else if j < i {
        assert(s.lending_pools@[j].asset@ != s.lending_pools@[i].asset@);
    }
}

/// With unique ids, an index holding `id` is the index the accessors
/// denote.
pub proof fn lemma_loan_index(s: CredLinkContract, id: u64, i: int)
    requires
        s.loans_unique(),
        0 <= i < s.loans@.len(),
        s.loans@[i].id == id,
    ensures
        s.has_loan(id),
        s.loan_index(id) == i,
        s.loan_of(id) == s.loans@[i],
{
    assert(s.has_loan(id));
    let j = s.loan_index(id);
    assert(0 <= j < s.loans@.len() && s.loans@[j].id == id);
    if i < j {
        assert(s.loans@[i].id != s.loans@[j].id);
    } else if j < i {
        assert(s.loans@[j].id != s.loans@[i].id);
    }
}

/// A state whose collections keep their lengths and their keys
/// pointwise, and whose entities all stay well-formed, stays
/// well-formed: uniqueness, the id bound and the cross-references only
/// depend on keys and lengths.
proof fn lemma_keys_frame_wf(pre: CredLinkContract, post: CredLinkContract)
    requires
        pre.wf(),
        post.users@.len() == pre.users@.len(),
        forall|k: int|
            0 <= k < post.users@.len() ==> (#[trigger] post.users@[k]).stellar_address@
                == pre.users@[k].stellar_address@ && post.users@[k].wf(),
        post.lending_pools@.len() == pre.lending_pools@.len(),
        forall|k: int|
            0 <= k < post.lending_pools@.len() ==> (#[trigger] post.lending_pools@[k]).asset@
                == pre.lending_pools@[k].asset@ && post.lending_pools@[k].wf(),
        post.loans@.len() == pre.loans@.len(),
        forall|k: int|
            0 <= k < post.loans@.len() ==> (#[trigger] post.loans@[k]).id == pre.loans@[k].id
                && post.loans@[k].asset@ == pre.loans@[k].asset@ && post.loans@[k].borrower@
                == pre.loans@[k].borrower@ && post.loans@[k].wf(),
        post.next_loan_id == pre.next_loan_id,
    ensures
        post.wf(),
{
    assert forall|i: int, j: int|
        0 <= i < j < post.users@.len() implies post.users@[i].stellar_address@
        != post.users@[j].stellar_address@ by {
        assert(pre.users@[i].stellar_address@ != pre.users@[j].stellar_address@);
    }
    assert forall|i: int, j: int|
        0 <= i < j < post.lending_pools@.len() implies post.lending_pools@[i].asset@
        != post.lending_pools@[j].asset@ by {
        assert(pre.lending_pools@[i].asset@ != pre.lending_pools@[j].asset@);
    }
    assert forall|i: int, j: int|
        0 <= i < j < post.loans@.len() implies post.loans@[i].id != post.loans@[j].id by {
        assert(pre.loans@[i].id != pre.loans@[j].id);
    }
    assert forall|i: int|
        0 <= i < post.loans@.len() implies post.has_pool((#[trigger] post.loans@[i]).asset@) by {
        assert(pre.has_pool(pre.loans@[i].asset@));
        let w = choose|k: int|
            0 <= k < pre.lending_pools@.len() && pre.lending_pools@[k].asset@
                == pre.loans@[i].asset@;
        assert(post.lending_pools@[w].asset@ == post.loans@[i].asset@);
    }
    assert forall|i: int|
        0 <= i < post.loans@.len() implies post.has_user(
        (#[trigger] post.loans@[i]).borrower@,
    ) by {
        assert(pre.has_user(pre.loans@[i].borrower@));
        let w = choose|k: int|
            0 <= k < pre.users@.len() && pre.users@[k].stellar_address@
                == pre.loans@[i].borrower@;
        assert(post.users@[w].stellar_address@ == post.loans@[i].borrower@);
    }
}

/// Appending a fresh, unregistered, well-formed profile preserves the
/// state invariant.
proof fn lemma_push_user_wf(pre: CredLinkContract, post: CredLinkContract)
    requires
        pre.wf(),
        post.users@.len() == pre.users@.len() + 1,
        post.users@ == pre.users@.push(post.users@.last()),
        !pre.has_user(post.users@.last().stellar_address@),
        post.users@.last().wf(),
        post.lending_pools == pre.lending_pools,
        post.loans == pre.loans,
        post.next_loan_id == pre.next_loan_id,
    ensures
        post.wf(),
{
    let n = pre.users@.len() as int;
    assert forall|i: int, j: int|
        0 <= i < j < post.users@.len() implies post.users@[i].stellar_address@
        != post.users@[j].stellar_address@ by {
        if j < n {
            assert(pre.users@[i].stellar_address@ != pre.users@[j].stellar_address@);
        } else {
            if post.users@[i].stellar_address@ == post.users@[j].stellar_address@ {
                assert(pre.users@[i].stellar_address@ == post.users@.last().stellar_address@);
                assert(pre.has_user(post.users@.last().stellar_address@));
            }
        }
    }
    assert forall|i: int| 0 <= i < post.users@.len() implies (#[trigger] post.users@[i]).wf() by {
        if i < n {
            assert(pre.users@[i].wf());
        }
    }
    assert forall|i: int|
        0 <= i < post.loans@.len() implies post.has_user(
        (#[trigger] post.loans@[i]).borrower@,
    ) by {
        assert(pre.has_user(pre.loans@[i].borrower@));
        let w = choose|k: int|
            0 <= k < pre.users@.len() && pre.users@[k].stellar_address@
                == pre.loans@[i].borrower@;
        assert(post.users@[w].stellar_address@ == post.loans@[i].borrower@);
    }
    assert forall|i: int|
        0 <= i < post.loans@.len() implies post.has_pool((#[trigger] post.loans@[i]).asset@) by {
        assert(pre.has_pool(pre.loans@[i].asset@));
    }
}

/// Origination preserves the state invariant: one pool updated in
/// place (same asset), one profile updated in place (same address),
/// one fresh Active loan appended whose id is the old counter, and the
/// counter advanced past it.
proof fn lemma_originate_wf(pre: CredLinkContract, post: CredLinkContract, pi: int, ui: int)
    requires
        pre.wf(),
        0 <= pi < pre.lending_pools@.len(),
        0 <= ui < pre.users@.len(),
        post.lending_pools@ == pre.lending_pools@.update(pi, post.lending_pools@[pi]),
        post.lending_pools@[pi].asset@ == pre.lending_pools@[pi].asset@,
        post.lending_pools@[pi].wf(),
        post.users@ == pre.users@.update(ui, post.users@[ui]),
        post.users@[ui].stellar_address@ == pre.users@[ui].stellar_address@,
        post.users@[ui].wf(),
        post.loans@.len() == pre.loans@.len() + 1,
        post.loans@ == pre.loans@.push(post.loans@.last()),
        post.loans@.last().id == pre.next_loan_id,
        post.loans@.last().wf(),
        post.loans@.last().asset@ == pre.lending_pools@[pi].asset@,
        post.loans@.last().borrower@ == pre.users@[ui].stellar_address@,
        post.next_loan_id == pre.next_loan_id + 1,
    ensures
        post.wf(),
{
    let n = pre.loans@.len() as int;
    assert forall|i: int, j: int|
        0 <= i < j < post.users@.len() implies post.users@[i].stellar_address@
        != post.users@[j].stellar_address@ by {
        assert(pre.users@[i].stellar_address@ != pre.users@[j].stellar_address@);
    }
    assert forall|i: int, j: int|
        0 <= i < j < post.lending_pools@.len() implies post.lending_pools@[i].asset@
        != post.lending_pools@[j].asset@ by {
        assert(pre.lending_pools@[i].asset@ != pre.lending_pools@[j].asset@);
    }
    assert forall|i: int, j: int|
        0 <= i < j < post.loans@.len() implies post.loans@[i].id != post.loans@[j].id by {
        if j < n {
            assert(pre.loans@[i].id != pre.loans@[j].id);
        } else {
            assert(pre.loans@[i].id < pre.next_loan_id);
        }
    }
    assert forall|i: int| 0 <= i < post.users@.len() implies (#[trigger] post.users@[i]).wf() by {
        if i != ui {
            assert(pre.users@[i].wf());
        }
    }
    assert forall|i: int|
        0 <= i < post.lending_pools@.len() implies (#[trigger] post.lending_pools@[i]).wf() by {
        if i != pi {
            assert(pre.lending_pools@[i].wf());
        }
    }
    assert forall|i: int| 0 <= i < post.loans@.len() implies (#[trigger] post.loans@[i]).wf() by {
        if i < n {
            assert(pre.loans@[i].wf());
        }
    }
    assert forall|i: int|
        0 <= i < post.loans@.len() implies (#[trigger] post.loans@[i]).id
        < post.next_loan_id by {
        if i < n {
            assert(pre.loans@[i].id < pre.next_loan_id);
        }
    }
    assert forall|i: int|
        0 <= i < post.loans@.len() implies post.has_pool((#[trigger] post.loans@[i]).asset@) by {
        if i < n {
            assert(pre.has_pool(pre.loans@[i].asset@));
            let w = choose|k: int|
                0 <= k < pre.lending_pools@.len() && pre.lending_pools@[k].asset@
                    == pre.loans@[i].asset@;
            assert(post.lending_pools@[w].asset@ == post.loans@[i].asset@);
        } else {
            assert(post.lending_pools@[pi].asset@ == post.loans@[i].asset@);
        }
    }
    assert forall|i: int|
        0 <= i < post.loans@.len() implies post.has_user(
        (#[trigger] post.loans@[i]).borrower@,
    ) by {
        if i < n {
            assert(pre.has_user(pre.loans@[i].borrower@));
            let w = choose|k: int|
                0 <= k < pre.users@.len() && pre.users@[k].stellar_address@
                    == pre.loans@[i].borrower@;
            assert(post.users@[w].stellar_address@ == post.loans@[i].borrower@);
        } else {
            assert(post.users@[ui].stellar_address@ == post.loans@[i].borrower@);
        }
    }
}

/// Appending a fresh, well-formed pool for a new asset preserves the
/// state invariant.
proof fn lemma_push_pool_wf(pre: CredLinkContract, post: CredLinkContract)
    requires
        pre.wf(),
        post.lending_pools@.len() == pre.lending_pools@.len() + 1,
        post.lending_pools@ == pre.lending_pools@.push(post.lending_pools@.last()),
        !pre.has_pool(post.lending_pools@.last().asset@),
        post.lending_pools@.last().wf(),
        post.users == pre.users,
        post.loans == pre.loans,
        post.next_loan_id == pre.next_loan_id,
    ensures
        post.wf(),
{
    let n = pre.lending_pools@.len() as int;
    assert forall|i: int, j: int|
        0 <= i < j < post.lending_pools@.len() implies post.lending_pools@[i].asset@
        != post.lending_pools@[j].asset@ by {
        if j < n {
            assert(pre.lending_pools@[i].asset@ != pre.lending_pools@[j].asset@);
        } else {
            if post.lending_pools@[i].asset@ == post.lending_pools@[j].asset@ {
                assert(pre.lending_pools@[i].asset@ == post.lending_pools@.last().asset@);
                assert(pre.has_pool(post.lending_pools@.last().asset@));
            }
        }
    }
    assert forall|i: int|
        0 <= i < post.lending_pools@.len() implies (#[trigger] post.lending_pools@[i]).wf() by {
        if i < n {
            assert(pre.lending_pools@[i].wf());
        }
    }
    assert forall|i: int|
        0 <= i < post.loans@.len() implies post.has_pool((#[trigger] post.loans@[i]).asset@) by {
        assert(pre.has_pool(pre.loans@[i].asset@));
        let w = choose|k: int|
            0 <= k < pre.lending_pools@.len() && pre.lending_pools@[k].asset@
                == pre.loans@[i].asset@;
        assert(post.lending_pools@[w].asset@ == post.loans@[i].asset@);
    }
    assert forall|i: int|
        0 <= i < post.loans@.len() implies post.has_user(
        (#[trigger] post.loans@[i]).borrower@,
    ) by {
        assert(pre.has_user(pre.loans@[i].borrower@));
    }
}

} // verus!
