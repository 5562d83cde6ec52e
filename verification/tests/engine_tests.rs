use cred_link::{
    CredLinkContract, Error, LiquidationOutcome, LoanStatus, TransactionType, DEFAULT_CREDIT_SCORE,
};

const DAY: u64 = 86400;

fn addr(tag: u8) -> Vec<u8> {
    vec![tag, 1, 2, 3]
}

fn usdc() -> Vec<u8> {
    b"USDC".to_vec()
}

fn tx(tag: u8) -> Vec<u8> {
    vec![0xaa, tag]
}

/// A pool and a registered borrower, ready to originate against.
fn setup() -> CredLinkContract {
    let mut c = CredLinkContract::new();
    c.register_user(addr(1), 42).unwrap();
    c.create_lending_pool(usdc(), 100_000, 500, 500, 30).unwrap();
    c
}

#[test]
fn register_user_creates_default_profile() {
    let mut c = CredLinkContract::new();
    assert_eq!(c.register_user(addr(1), 42), Ok(()));
    let p = c.get_user(&addr(1)).unwrap();
    assert_eq!(p.stellar_address, addr(1));
    assert_eq!(p.credit_score, DEFAULT_CREDIT_SCORE);
    assert_eq!(p.total_loans_completed, 0);
    assert_eq!(p.total_loans_defaulted, 0);
    assert_eq!(p.on_time_payments, 0);
    assert_eq!(p.late_payments, 0);
    assert_eq!(p.transaction_history.len(), 0);
    assert_eq!(p.registration_date, 42);
    assert!(!p.identity_verified);
}

#[test]
fn register_duplicate_user_fails_and_changes_nothing() {
    let mut c = CredLinkContract::new();
    c.register_user(addr(1), 42).unwrap();
    assert_eq!(c.register_user(addr(1), 99), Err(Error::DuplicateUser));
    let p = c.get_user(&addr(1)).unwrap();
    assert_eq!(p.registration_date, 42);
    assert_eq!(p.credit_score, DEFAULT_CREDIT_SCORE);
    assert_eq!(c.users.len(), 1);
}

#[test]
fn create_duplicate_pool_fails_and_changes_nothing() {
    let mut c = CredLinkContract::new();
    assert_eq!(c.create_lending_pool(usdc(), 100_000, 500, 500, 30), Ok(()));
    assert_eq!(
        c.create_lending_pool(usdc(), 999, 100, 300, 7),
        Err(Error::PoolAlreadyExists)
    );
    let p = c.get_pool(&usdc()).unwrap();
    assert_eq!(p.total_funds, 100_000);
    assert_eq!(p.available_funds, 100_000);
    assert_eq!(p.interest_rate, 500);
    assert_eq!(p.min_credit_score, 500);
    assert_eq!(p.max_loan_duration, 30);
    assert_eq!(c.lending_pools.len(), 1);
}

#[test]
fn fund_pool_raises_total_and_available() {
    let mut c = setup();
    assert_eq!(c.fund_pool(usdc(), 5_000), Ok(()));
    let p = c.get_pool(&usdc()).unwrap();
    assert_eq!(p.total_funds, 105_000);
    assert_eq!(p.available_funds, 105_000);
    assert_eq!(c.fund_pool(b"BTC".to_vec(), 1), Err(Error::PoolNotFound));
}

#[test]
fn set_identity_verified_toggles_only_the_flag() {
    let mut c = setup();
    assert_eq!(c.set_identity_verified(addr(1), true), Ok(()));
    let p = c.get_user(&addr(1)).unwrap();
    assert!(p.identity_verified);
    assert_eq!(p.credit_score, DEFAULT_CREDIT_SCORE);
    assert_eq!(
        c.set_identity_verified(addr(9), true),
        Err(Error::UserNotFound)
    );
}

#[test]
fn originate_unknown_user_fails() {
    let mut c = setup();
    assert_eq!(
        c.originate_loan(addr(9), usdc(), 1000, usdc(), 1100, 1000, tx(1)),
        Err(Error::UserNotFound)
    );
}

#[test]
fn originate_unknown_pool_fails() {
    let mut c = setup();
    assert_eq!(
        c.originate_loan(addr(1), b"BTC".to_vec(), 1000, usdc(), 1100, 1000, tx(1)),
        Err(Error::PoolNotFound)
    );
}

#[test]
fn originate_below_min_score_fails() {
    let mut c = CredLinkContract::new();
    c.register_user(addr(1), 42).unwrap();
    c.create_lending_pool(usdc(), 100_000, 500, 600, 30).unwrap();
    assert_eq!(
        c.originate_loan(addr(1), usdc(), 1000, usdc(), 1100, 1000, tx(1)),
        Err(Error::InsufficientCreditScore)
    );
}

#[test]
fn originate_beyond_pool_funds_fails() {
    let mut c = setup();
    assert_eq!(
        c.originate_loan(addr(1), usdc(), 100_001, usdc(), 150_000, 1000, tx(1)),
        Err(Error::InsufficientPoolFunds)
    );
    let p = c.get_pool(&usdc()).unwrap();
    assert_eq!(p.available_funds, 100_000);
}

#[test]
fn originate_at_exact_stablecoin_ratio_succeeds() {
    let mut c = setup();
    // exactly 110.0%
    let r = c.originate_loan(addr(1), usdc(), 10_000, usdc(), 11_000, 1000, tx(1));
    assert!(r.is_ok());
}

#[test]
fn originate_just_below_stablecoin_ratio_fails() {
    let mut c = setup();
    // 109.9%
    assert_eq!(
        c.originate_loan(addr(1), usdc(), 10_000, usdc(), 10_990, 1000, tx(1)),
        Err(Error::InsufficientCollateral)
    );
    assert_eq!(c.loans.len(), 0);
    assert_eq!(c.get_pool(&usdc()).unwrap().available_funds, 100_000);
}

#[test]
fn full_lifecycle_on_time_repayment() {
    let mut c = setup();
    let id = c
        .originate_loan(addr(1), usdc(), 1000, usdc(), 1100, 1000, tx(1))
        .unwrap();
    assert_eq!(id, 0);
    assert_eq!(c.get_pool(&usdc()).unwrap().available_funds, 99_000);
    {
        let l = c.get_loan(id).unwrap();
        assert_eq!(l.status, LoanStatus::Active);
        assert_eq!(l.amount, 1000);
        assert_eq!(l.interest_rate, 500);
        assert_eq!(l.start_date, 1000);
        assert_eq!(l.due_date, 1000 + 30 * DAY);
        assert_eq!(l.borrower, addr(1));
        assert_eq!(l.asset, usdc());
    }
    // 1000 principal + 5% interest
    assert_eq!(c.repay_loan(id, 1050, 2000, tx(2)), Ok(()));
    let p = c.get_pool(&usdc()).unwrap();
    assert_eq!(p.available_funds, 100_050);
    assert_eq!(p.total_funds, 100_050);
    assert_eq!(c.get_loan(id).unwrap().status, LoanStatus::Completed);
    let u = c.get_user(&addr(1)).unwrap();
    assert_eq!(u.on_time_payments, 1);
    assert_eq!(u.late_payments, 0);
    assert_eq!(u.total_loans_completed, 1);
    assert_eq!(u.credit_score, 510);
    assert_eq!(u.transaction_history.len(), 2);
    assert_eq!(u.transaction_history[0].tx_type, TransactionType::Loan);
    assert_eq!(u.transaction_history[0].amount, 1000);
    assert_eq!(u.transaction_history[1].tx_type, TransactionType::Repayment);
    assert_eq!(u.transaction_history[1].amount, 1050);
    assert_eq!(u.transaction_history[1].tx_hash, tx(2));
}

#[test]
fn repay_unknown_loan_fails() {
    let mut c = setup();
    assert_eq!(c.repay_loan(7, 1050, 2000, tx(2)), Err(Error::LoanNotFound));
}

#[test]
fn repay_below_owed_fails() {
    let mut c = setup();
    let id = c
        .originate_loan(addr(1), usdc(), 1000, usdc(), 1100, 1000, tx(1))
        .unwrap();
    assert_eq!(
        c.repay_loan(id, 1049, 2000, tx(2)),
        Err(Error::InsufficientPayment)
    );
    assert_eq!(c.get_loan(id).unwrap().status, LoanStatus::Active);
    assert_eq!(c.get_pool(&usdc()).unwrap().available_funds, 99_000);
}

#[test]
fn repay_twice_fails_without_further_change() {
    let mut c = setup();
    let id = c
        .originate_loan(addr(1), usdc(), 1000, usdc(), 1100, 1000, tx(1))
        .unwrap();
    assert_eq!(c.repay_loan(id, 1050, 2000, tx(2)), Ok(()));
    assert_eq!(c.repay_loan(id, 1050, 2500, tx(3)), Err(Error::LoanNotActive));
    let p = c.get_pool(&usdc()).unwrap();
    assert_eq!(p.available_funds, 100_050);
    assert_eq!(p.total_funds, 100_050);
    let u = c.get_user(&addr(1)).unwrap();
    assert_eq!(u.on_time_payments, 1);
    assert_eq!(u.total_loans_completed, 1);
    assert_eq!(u.transaction_history.len(), 2);
}

#[test]
fn late_repayment_penalizes_score() {
    let mut c = setup();
    let id = c
        .originate_loan(addr(1), usdc(), 1000, usdc(), 1100, 1000, tx(1))
        .unwrap();
    let past_due = 1000 + 30 * DAY + 1;
    assert_eq!(c.repay_loan(id, 1050, past_due, tx(2)), Ok(()));
    let u = c.get_user(&addr(1)).unwrap();
    assert_eq!(u.late_payments, 1);
    assert_eq!(u.on_time_payments, 0);
    assert_eq!(u.credit_score, 480);
    assert_eq!(u.total_loans_completed, 1);
    assert_eq!(c.get_loan(id).unwrap().status, LoanStatus::Completed);
}

#[test]
fn repayment_exactly_at_due_date_counts_as_on_time() {
    let mut c = setup();
    let id = c
        .originate_loan(addr(1), usdc(), 1000, usdc(), 1100, 1000, tx(1))
        .unwrap();
    let due = c.get_loan(id).unwrap().due_date;
    assert_eq!(c.repay_loan(id, 1050, due, tx(2)), Ok(()));
    let u = c.get_user(&addr(1)).unwrap();
    assert_eq!(u.on_time_payments, 1);
    assert_eq!(u.late_payments, 0);
    assert_eq!(u.credit_score, 510);
}

#[test]
fn health_boundaries_decide_the_outcome() {
    let mut c = setup();
    let id = c
        .originate_loan(addr(1), usdc(), 10_000, usdc(), 11_000, 1000, tx(1))
        .unwrap();
    // amount is 10000, so the health ratio in basis points equals the value
    assert_eq!(
        c.evaluate_liquidation(id, 11_000, 2000, tx(2)),
        Ok(LiquidationOutcome::Healthy)
    );
    assert_eq!(
        c.evaluate_liquidation(id, 10_999, 2000, tx(3)),
        Ok(LiquidationOutcome::Warning)
    );
    assert_eq!(
        c.evaluate_liquidation(id, 10_501, 2000, tx(4)),
        Ok(LiquidationOutcome::Warning)
    );
    assert_eq!(
        c.evaluate_liquidation(id, 10_500, 2000, tx(5)),
        Ok(LiquidationOutcome::Warning)
    );
    // none of the above changed anything
    assert_eq!(c.get_loan(id).unwrap().status, LoanStatus::Active);
    assert_eq!(c.get_user(&addr(1)).unwrap().transaction_history.len(), 1);
    assert_eq!(
        c.evaluate_liquidation(id, 10_499, 2000, tx(6)),
        Ok(LiquidationOutcome::Liquidated)
    );
    assert_eq!(c.get_loan(id).unwrap().status, LoanStatus::Liquidated);
}

#[test]
fn liquidation_with_shortfall_records_default() {
    let mut c = setup();
    let id = c
        .originate_loan(addr(1), usdc(), 10_000, usdc(), 11_000, 1000, tx(1))
        .unwrap();
    assert_eq!(
        c.evaluate_liquidation(id, 9_000, 2000, tx(2)),
        Ok(LiquidationOutcome::Liquidated)
    );
    let p = c.get_pool(&usdc()).unwrap();
    // 9000 of the 10000 principal recovered; the shortfall stays out
    assert_eq!(p.available_funds, 99_000);
    assert_eq!(p.total_funds, 100_000);
    let u = c.get_user(&addr(1)).unwrap();
    assert_eq!(u.total_loans_defaulted, 1);
    assert_eq!(u.credit_score, 400);
    assert_eq!(u.transaction_history.len(), 2);
    assert_eq!(
        u.transaction_history[1].tx_type,
        TransactionType::Liquidation
    );
    assert_eq!(u.transaction_history[1].amount, 9_000);
}

#[test]
fn liquidation_with_surplus_credits_the_pool() {
    let mut c = setup();
    let id = c
        .originate_loan(addr(1), usdc(), 10_000, usdc(), 11_000, 1000, tx(1))
        .unwrap();
    // recovered above principal: direct liquidation reports no shortfall
    assert_eq!(c.liquidate_loan(id, 10_400, 2000, tx(2)), Ok(0));
    let p = c.get_pool(&usdc()).unwrap();
    assert_eq!(p.total_funds, 100_400);
    assert_eq!(p.available_funds, 100_400);
}

#[test]
fn liquidate_reports_the_shortfall() {
    let mut c = setup();
    let id = c
        .originate_loan(addr(1), usdc(), 10_000, usdc(), 11_000, 1000, tx(1))
        .unwrap();
    assert_eq!(c.liquidate_loan(id, 9_250, 2000, tx(2)), Ok(750));
}

#[test]
fn liquidate_terminal_loan_fails() {
    let mut c = setup();
    let id = c
        .originate_loan(addr(1), usdc(), 1000, usdc(), 1100, 1000, tx(1))
        .unwrap();
    c.repay_loan(id, 1050, 2000, tx(2)).unwrap();
    assert_eq!(
        c.liquidate_loan(id, 500, 3000, tx(3)),
        Err(Error::LoanNotActive)
    );
    assert_eq!(
        c.evaluate_liquidation(id, 500, 3000, tx(4)),
        Err(Error::LoanNotActive)
    );
}

#[test]
fn evaluate_unknown_loan_fails() {
    let mut c = setup();
    assert_eq!(
        c.evaluate_liquidation(3, 500, 3000, tx(1)),
        Err(Error::LoanNotFound)
    );
}

#[test]
fn loan_ids_are_sequential_and_unique() {
    let mut c = setup();
    c.register_user(addr(2), 43).unwrap();
    let a = c
        .originate_loan(addr(1), usdc(), 1000, usdc(), 1100, 1000, tx(1))
        .unwrap();
    let b = c
        .originate_loan(addr(2), usdc(), 2000, usdc(), 2200, 1001, tx(2))
        .unwrap();
    assert_eq!(a, 0);
    assert_eq!(b, 1);
    assert_eq!(c.get_loan(a).unwrap().amount, 1000);
    assert_eq!(c.get_loan(b).unwrap().amount, 2000);
    assert_eq!(c.get_pool(&usdc()).unwrap().available_funds, 97_000);
}
