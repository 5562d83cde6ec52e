use vstd::prelude::*;

use crate::types::{
    UserProfile, MIN_CREDIT_SCORE, MAX_CREDIT_SCORE, ON_TIME_REWARD, LATE_PENALTY,
    DEFAULT_PENALTY,
};

verus! {

/// A score raised by `ON_TIME_REWARD`, clamped at the upper bound.
pub open spec fn spec_reward_score(score: u32) -> u32 {
    if score + ON_TIME_REWARD > MAX_CREDIT_SCORE {
        MAX_CREDIT_SCORE
    } else {
        (score + ON_TIME_REWARD) as u32
    }
}

/// A score lowered by `penalty`, floored at the lower bound.
pub open spec fn spec_penalize_score(score: u32, penalty: u32) -> u32 {
    if score >= MIN_CREDIT_SCORE + penalty {
        (score - penalty) as u32
    } else {
        MIN_CREDIT_SCORE
    }
}

/// The fields of a profile that no score operation may touch:
/// identity, registration, and the transaction history.
pub open spec fn same_identity(pre: UserProfile, post: UserProfile) -> bool {
    &&& post.stellar_address@ == pre.stellar_address@
    &&& post.registration_date == pre.registration_date
    &&& post.identity_verified == pre.identity_verified
    &&& post.transaction_history@ == pre.transaction_history@
}

/// How a profile changes when a payment outcome is applied: an on-time
/// payment rewards the score and counts an on-time payment; a late one
/// penalizes the score and counts a late payment.
pub open spec fn profile_after_outcome(pre: UserProfile, post: UserProfile, on_time: bool) -> bool {
    &&& same_identity(pre, post)
    &&& post.credit_score == (if on_time {
        spec_reward_score(pre.credit_score)
    } else {
        spec_penalize_score(pre.credit_score, LATE_PENALTY)
    })
    &&& post.on_time_payments == (if on_time {
        pre.on_time_payments + 1
    } else {
        pre.on_time_payments as int
    })
    &&& post.late_payments == (if on_time {
        pre.late_payments as int
    } else {
        pre.late_payments + 1
    })
    &&& post.total_loans_completed == pre.total_loans_completed
    &&& post.total_loans_defaulted == pre.total_loans_defaulted
}

/// How a profile changes when its borrower defaults: the default is
/// counted and the score takes the default penalty.
pub open spec fn profile_after_default(pre: UserProfile, post: UserProfile) -> bool {
    &&& same_identity(pre, post)
    &&& post.credit_score == spec_penalize_score(pre.credit_score, DEFAULT_PENALTY)
    &&& post.total_loans_defaulted == pre.total_loans_defaulted + 1
    &&& post.total_loans_completed == pre.total_loans_completed
    &&& post.on_time_payments == pre.on_time_payments
    &&& post.late_payments == pre.late_payments
}

/// How a profile changes when a loan completes: only the completion
/// counter moves.
pub open spec fn profile_after_completion(pre: UserProfile, post: UserProfile) -> bool {
    &&& same_identity(pre, post)
    &&& post.credit_score == pre.credit_score
    &&& post.total_loans_completed == pre.total_loans_completed + 1
    &&& post.total_loans_defaulted == pre.total_loans_defaulted
    &&& post.on_time_payments == pre.on_time_payments
    &&& post.late_payments == pre.late_payments
}

/// Records a payment outcome on a profile: the score moves by the
/// reward or penalty, clamped to its bounds, and the matching payment
/// counter is incremented.
pub fn apply_payment_outcome(profile: &mut UserProfile, on_time: bool)
    requires
        old(profile).wf(),
        old(profile).on_time_payments < u32::MAX,
        old(profile).late_payments < u32::MAX,
    ensures
        final(profile).wf(),
        profile_after_outcome(*old(profile), *final(profile), on_time),
{
    if on_time {
        if profile.credit_score + ON_TIME_REWARD > MAX_CREDIT_SCORE {
            profile.credit_score = MAX_CREDIT_SCORE;
        } else {
            profile.credit_score = profile.credit_score + ON_TIME_REWARD;
        }
        profile.on_time_payments = profile.on_time_payments + 1;
    } else {
        if profile.credit_score >= MIN_CREDIT_SCORE + LATE_PENALTY {
            profile.credit_score = profile.credit_score - LATE_PENALTY;
        } else {
            profile.credit_score = MIN_CREDIT_SCORE;
        }
        profile.late_payments = profile.late_payments + 1;
    }
}

/// Records a default on a profile: the default counter is incremented
/// and the score takes the default penalty, floored at the lower bound.
pub fn apply_default(profile: &mut UserProfile)
    requires
        old(profile).wf(),
        old(profile).total_loans_defaulted < u32::MAX,
    ensures
        final(profile).wf(),
        profile_after_default(*old(profile), *final(profile)),
{
    if profile.credit_score >= MIN_CREDIT_SCORE + DEFAULT_PENALTY {
        profile.credit_score = profile.credit_score - DEFAULT_PENALTY;
    } else {
        profile.credit_score = MIN_CREDIT_SCORE;
    }
    profile.total_loans_defaulted = profile.total_loans_defaulted + 1;
}

/// Records a completed loan on a profile.
pub fn apply_completion(profile: &mut UserProfile)
    requires
        old(profile).wf(),
        old(profile).total_loans_completed < u32::MAX,
    ensures
        final(profile).wf(),
        profile_after_completion(*old(profile), *final(profile)),
{
    profile.total_loans_completed = profile.total_loans_completed + 1;
}

} // verus!
