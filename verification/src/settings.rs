//! Global settings: the per-size price for custom blends, the referral and
//! coupon amounts, and how long audit history stays in the table.

use vstd::prelude::*;
use crate::error::AppError;
use crate::money::Amount;

verus! {

/// The least audit retention, in days, short of keeping everything.
pub const MIN_AUDIT_RETENTION_DAYS: i32 = 30;

#[derive(Debug)]
pub struct UpdateSettings {
    pub custom_price_oz3_4: Option<Amount>,
    pub custom_price_oz1_7: Option<Amount>,
    pub custom_price_roller: Option<Amount>,
    pub custom_price_spray: Option<Amount>,
    pub referral_enabled: Option<bool>,
    /// Cents, as money is stored on carts.
    pub referral_discount_cents: Option<i64>,
    pub referral_reward_cents: Option<i64>,
    pub coupon_expiry_days: Option<i32>,
    /// Days of audit history to keep in the table; 0 keeps everything.
    pub audit_retention_days: Option<i32>,
}

pub open spec fn below_zero(p: Option<Amount>) -> bool {
    p matches Some(a) && a.is_below_zero()
}

pub open spec fn negative_cents(c: Option<i64>) -> bool {
    c matches Some(n) && n < 0
}

/// Why an update is refused, if it is. A retention of one day would start
/// shipping today's entries off-box within hours, so anything short of 30 days
/// (other than 0, keep everything) is refused.
pub open spec fn update_error(b: UpdateSettings) -> Option<Seq<char>> {
    if below_zero(b.custom_price_oz3_4) || below_zero(b.custom_price_oz1_7) || below_zero(b.custom_price_roller)
        || below_zero(b.custom_price_spray) {
        Some("prices can't be negative"@)
    } else if negative_cents(b.referral_discount_cents) || negative_cents(b.referral_reward_cents) {
        Some("referral amounts can't be negative"@)
    } else if b.coupon_expiry_days matches Some(d) && d < 0 {
        Some("coupon expiry can't be negative — use 0 for never"@)
    } else if b.audit_retention_days matches Some(d) && d != 0 && d < MIN_AUDIT_RETENTION_DAYS {
        Some("audit retention must be 0 (keep everything) or at least 30 days"@)
    } else {
        None
    }
}

fn price_below_zero(p: Option<Amount>) -> (r: bool)
    ensures
        r == below_zero(p),
{
    match p {
        Some(a) => a.negative && a.mantissa > 0,
        None => false,
    }
}

fn cents_negative(c: Option<i64>) -> (r: bool)
    ensures
        r == negative_cents(c),
{
    match c {
        Some(n) => n < 0,
        None => false,
    }
}

pub fn check_update(body: &UpdateSettings) -> (r: Result<(), AppError>)
    ensures
        match update_error(*body) {
            Some(m) => r matches Err(AppError::BadRequest(x)) && x@ == m,
            None => r is Ok,
        },
{
    if price_below_zero(body.custom_price_oz3_4) || price_below_zero(body.custom_price_oz1_7)
        || price_below_zero(body.custom_price_roller) || price_below_zero(body.custom_price_spray) {
        return Err(AppError::BadRequest(String::from_str("prices can't be negative")));
    }
    if cents_negative(body.referral_discount_cents) || cents_negative(body.referral_reward_cents) {
        return Err(AppError::BadRequest(String::from_str("referral amounts can't be negative")));
    }
    if let Some(d) = body.coupon_expiry_days {
        if d < 0 {
            return Err(AppError::BadRequest(String::from_str(
                "coupon expiry can't be negative — use 0 for never",
            )));
        }
    }
    if let Some(d) = body.audit_retention_days {
        if d != 0 && d < MIN_AUDIT_RETENTION_DAYS {
            return Err(AppError::BadRequest(String::from_str(
                "audit retention must be 0 (keep everything) or at least 30 days",
            )));
        }
    }
    Ok(())
}

} // verus!
