use cred_link::pool::{fund, release, reserve};
use cred_link::score::{apply_completion, apply_default, apply_payment_outcome};
use cred_link::{Error, LendingPool, UserProfile, MAX_CREDIT_SCORE, MIN_CREDIT_SCORE};

fn profile(score: u32) -> UserProfile {
    UserProfile {
        stellar_address: vec![1],
        credit_score: score,
        total_loans_completed: 0,
        total_loans_defaulted: 0,
        on_time_payments: 0,
        late_payments: 0,
        transaction_history: Vec::new(),
        registration_date: 42,
        identity_verified: false,
    }
}

fn pool(total: u64, available: u64) -> LendingPool {
    LendingPool {
        asset: b"USDC".to_vec(),
        total_funds: total,
        available_funds: available,
        min_credit_score: 500,
        interest_rate: 500,
        max_loan_duration: 30,
    }
}

#[test]
fn on_time_payment_rewards_ten_points() {
    let mut p = profile(500);
    apply_payment_outcome(&mut p, true);
    assert_eq!(p.credit_score, 510);
    assert_eq!(p.on_time_payments, 1);
    assert_eq!(p.late_payments, 0);
}

#[test]
fn reward_clamps_at_the_upper_bound() {
    let mut p = profile(845);
    apply_payment_outcome(&mut p, true);
    assert_eq!(p.credit_score, MAX_CREDIT_SCORE);
    let mut q = profile(850);
    apply_payment_outcome(&mut q, true);
    assert_eq!(q.credit_score, MAX_CREDIT_SCORE);
}

#[test]
fn late_payment_costs_twenty_points() {
    let mut p = profile(500);
    apply_payment_outcome(&mut p, false);
    assert_eq!(p.credit_score, 480);
    assert_eq!(p.late_payments, 1);
    assert_eq!(p.on_time_payments, 0);
}

#[test]
fn penalty_floors_at_the_lower_bound() {
    let mut p = profile(310);
    apply_payment_outcome(&mut p, false);
    assert_eq!(p.credit_score, MIN_CREDIT_SCORE);
    let mut q = profile(300);
    apply_payment_outcome(&mut q, false);
    assert_eq!(q.credit_score, MIN_CREDIT_SCORE);
}

#[test]
fn score_stays_bounded_through_any_sequence() {
    let mut p = profile(500);
    for i in 0..200u32 {
        apply_payment_outcome(&mut p, i % 3 == 0);
        assert!(MIN_CREDIT_SCORE <= p.credit_score && p.credit_score <= MAX_CREDIT_SCORE);
        if i % 7 == 0 {
            apply_default(&mut p);
            assert!(MIN_CREDIT_SCORE <= p.credit_score && p.credit_score <= MAX_CREDIT_SCORE);
        }
    }
}

#[test]
fn default_costs_a_hundred_points_and_is_counted() {
    let mut p = profile(450);
    apply_default(&mut p);
    assert_eq!(p.credit_score, 350);
    assert_eq!(p.total_loans_defaulted, 1);
    apply_default(&mut p);
    assert_eq!(p.credit_score, MIN_CREDIT_SCORE);
    assert_eq!(p.total_loans_defaulted, 2);
}

#[test]
fn completion_only_moves_its_counter() {
    let mut p = profile(500);
    apply_completion(&mut p);
    assert_eq!(p.total_loans_completed, 1);
    assert_eq!(p.credit_score, 500);
}

#[test]
fn reserve_fails_beyond_available_funds() {
    let mut p = pool(100, 60);
    assert_eq!(reserve(&mut p, 61), Err(Error::InsufficientPoolFunds));
    assert_eq!(p.available_funds, 60);
    assert_eq!(reserve(&mut p, 60), Ok(()));
    assert_eq!(p.available_funds, 0);
    assert_eq!(p.total_funds, 100);
}

#[test]
fn release_is_capped_at_the_total() {
    let mut p = pool(100, 90);
    release(&mut p, 50);
    assert_eq!(p.available_funds, 100);
    assert_eq!(p.total_funds, 100);
}

#[test]
fn fund_raises_both_counters() {
    let mut p = pool(100, 40);
    fund(&mut p, 25);
    assert_eq!(p.total_funds, 125);
    assert_eq!(p.available_funds, 65);
}

#[test]
fn available_funds_stay_within_total_through_any_sequence() {
    let mut p = pool(1000, 1000);
    let steps: [(u8, u64); 8] = [
        (0, 700),
        (1, 300),
        (2, 50),
        (0, 900),
        (1, 2000),
        (2, 5),
        (0, 100),
        (1, 100),
    ];
    for (op, amt) in steps {
        match op {
            0 => {
                let _ = reserve(&mut p, amt);
            }
            1 => release(&mut p, amt),
            _ => fund(&mut p, amt),
        }
        assert!(p.available_funds <= p.total_funds);
    }
}
