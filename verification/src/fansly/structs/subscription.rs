//! Subscriptions of the signed-in account.

use vstd::prelude::*;

verus! {

#[derive(Debug)]
pub struct Subscription {
    pub id: String,
    pub account_id: String,
    pub subscription_tier_id: String,
    pub subscription_tier_name: Option<String>,
    pub subscription_tier_color: Option<String>,
    pub plan_id: String,
    pub promo_id: Option<String>,
    pub status: i64,
    pub price: i64,
    pub renew_price: i64,
    pub renew_correlation_id: String,
    pub auto_renew: i64,
    pub billing_cycle: i64,
    pub duration: i64,
    pub renew_date: i64,
    pub created_at: i64,
    pub updated_at: i64,
    pub ends_at: i64,
    pub promo_price: Option<i64>,
    pub promo_duration: Option<i64>,
    pub promo_status: Option<i64>,
    pub promo_starts_at: Option<i64>,
    pub promo_ends_at: Option<i64>,
}

#[derive(Debug)]
pub struct SubscriptionStats {
    pub total_active: i64,
    pub total_expired: i64,
    pub total: i64,
}

#[derive(Debug)]
pub struct SubscriptionPlan {
    pub id: String,
    pub account_id: String,
    pub subscription_tier_id: String,
    pub billing_cycle: i64,
    pub price: i64,
    pub use_amounts: i64,
    pub promos: Vec<Promo>,
}

#[derive(Debug)]
pub struct Promo {
    pub id: String,
    pub status: i64,
    pub price: i64,
    pub duration: i64,
    pub max_uses: i64,
    pub max_uses_before: Option<i64>,
    pub new_subscribers_only: i64,
    pub starts_at: i64,
    pub ends_at: i64,
}

/// The state of a subscription.
#[derive(Debug, Clone, Copy, PartialEq, Eq, Structural)]
pub enum SubscriptionStatus {
    /// Status number 3.
    Active,
    /// Status number 5.
    Expired,
    /// Any other status number.
    Invalid,
}

/// The status a status number stands for: 3 is active, 5 expired, any other
/// number invalid.
pub open spec fn status_of(i: i64) -> SubscriptionStatus {
    if i == 3 {
        SubscriptionStatus::Active
    } else if i == 5 {
        SubscriptionStatus::Expired
    } else {
        SubscriptionStatus::Invalid
    }
}

impl From<i64> for SubscriptionStatus {
    fn from(i: i64) -> (s: SubscriptionStatus) {
        if i == 3 {
            SubscriptionStatus::Active
        } else if i == 5 {
            SubscriptionStatus::Expired
        } else {
            SubscriptionStatus::Invalid
        }
    }
}

impl vstd::std_specs::convert::FromSpecImpl<i64> for SubscriptionStatus {
    open spec fn obeys_from_spec() -> bool {
        true
    }

    open spec fn from_spec(v: i64) -> SubscriptionStatus {
        status_of(v)
    }
}

} // verus!
