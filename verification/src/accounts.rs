//! People: customers as the lookup view sees them, employees as admins manage
//! them, the employee sign-in steps and the customer portal's passwordless
//! sign-in and reorder rules.

use vstd::prelude::*;
use crate::catalog::MixDetail;
use crate::error::AppError;
use crate::order::{BottleSize, Order, OrderType};
use crate::text::{contains_char, has_char, is_blank, lowercase, push_str, spec_trim, str_eq, to_lowercase, trim};

verus! {

/// A customer record.
#[derive(Debug)]
pub struct Customer {
    pub id: u128,
    pub email: String,
    pub name: Option<String>,
    pub marketing_consent: bool,
    pub square_customer_id: Option<String>,
}

#[derive(Debug)]
pub struct ListCustomersQuery {
    pub email: Option<String>,
}

#[derive(Debug)]
pub struct UpdateCustomerRequest {
    pub name: Option<String>,
    pub marketing_consent: Option<bool>,
}

/// Everything the lookup view needs to show a customer and offer a one-tap
/// reorder, in one answer.
#[derive(Debug)]
pub struct ReorderResponse {
    pub customer: Customer,
    pub mixes: Vec<MixDetail>,
    pub orders: Vec<Order>,
}

/// The `ilike` pattern an email search runs with: the text anywhere in the
/// address.
pub fn email_search_pattern(email: &str) -> (r: String)
    ensures
        r@ == "%"@ + email@ + "%"@,
{
    let mut s = String::new();
    push_str(&mut s, "%");
    push_str(&mut s, email);
    push_str(&mut s, "%");
    s
}

/// Whether an update stamps the moment of consent: only when consent is being
/// given and has never been stamped before, so the first opt-in is what stays
/// on record.
pub fn stamps_consent(requested: Option<bool>, already_stamped: bool) -> (r: bool)
    ensures
        r == (requested == Some(true) && !already_stamped),
{
    match requested {
        Some(true) => !already_stamped,
        _ => false,
    }
}

/// What an employee may do.
#[derive(Debug, Clone, Copy, PartialEq, Eq, Structural)]
pub enum EmployeeRole {
    Admin,
    Worker,
}

impl EmployeeRole {
    pub open spec fn spec_name(self) -> Seq<char> {
        match self {
            EmployeeRole::Admin => "admin"@,
            EmployeeRole::Worker => "worker"@,
        }
    }

    /// The name the database and the session answers use.
    pub fn as_str(&self) -> (r: &'static str)
        ensures
            r@ == self.spec_name(),
    {
        match self {
            EmployeeRole::Admin => "admin",
            EmployeeRole::Worker => "worker",
        }
    }
}

#[derive(Debug)]
pub struct CreateEmployeeRequest {
    pub email: String,
    pub role: EmployeeRole,
}

#[derive(Debug)]
pub struct UpdateEmployeeRequest {
    pub role: Option<EmployeeRole>,
    pub active: Option<bool>,
}

/// The address a new employee account is created under: trimmed and
/// lower-cased, and it has to contain an `@`.
pub fn new_employee_email(raw: &str) -> (r: Result<String, AppError>)
    ensures
        has_char(lowercase(spec_trim(raw@)), '@') ==> (r matches Ok(e) && e@ == lowercase(spec_trim(raw@))),
        !has_char(lowercase(spec_trim(raw@)), '@') ==> (r matches Err(AppError::BadRequest(m)) && m@
            == "a valid email is required"@),
{
    let email = to_lowercase(trim(raw));
    if !contains_char(email.as_str(), '@') {
        return Err(AppError::BadRequest(String::from_str("a valid email is required")));
    }
    Ok(email)
}

/// An edit that would leave no active admin is rolled back: nobody could
/// manage the team afterwards.
pub fn keeps_an_admin(active_admins_after: i64) -> (r: Result<(), AppError>)
    ensures
        active_admins_after == 0 ==> (r matches Err(AppError::BadRequest(m)) && m@
            == "can't remove the last active admin"@),
        active_admins_after != 0 ==> r is Ok,
{
    if active_admins_after == 0 {
        Err(AppError::BadRequest(String::from_str("can't remove the last active admin")))
    } else {
        Ok(())
    }
}

#[derive(Debug)]
pub struct LoginRequest {
    pub email: String,
    pub password: String,
}

#[derive(Debug)]
pub struct MfaVerifyRequest {
    pub code: String,
}

/// Addresses are compared trimmed and lower-cased, at sign-in as everywhere.
pub fn normalized_email(raw: &str) -> (r: String)
    ensures
        r@ == lowercase(spec_trim(raw@)),
{
    to_lowercase(trim(raw))
}

/// The outcome of a password check. An unknown address and a wrong password
/// answer the same, so sign-in cannot be used to learn who has an account; a
/// right one opens a pending session that still needs the second factor.
pub fn login_status(account_found: bool, password_ok: bool, mfa_enrolled: bool) -> (r: Result<&'static str, AppError>)
    ensures
        !(account_found && password_ok) ==> r matches Err(AppError::Unauthorized),
        (account_found && password_ok && mfa_enrolled) ==> (r matches Ok(s) && s@ == "mfa_required"@),
        (account_found && password_ok && !mfa_enrolled) ==> (r matches Ok(s) && s@ == "enroll_required"@),
{
    if !(account_found && password_ok) {
        return Err(AppError::Unauthorized);
    }
    if mfa_enrolled {
        Ok("mfa_required")
    } else {
        Ok("enroll_required")
    }
}

/// Enrolment starts only from a pending session of someone not yet enrolled.
pub fn may_enroll_mfa(mfa_pending: bool, mfa_enrolled: bool) -> (r: Result<(), AppError>)
    ensures
        !mfa_pending ==> (r matches Err(AppError::BadRequest(m)) && m@ == "already authenticated"@),
        (mfa_pending && mfa_enrolled) ==> (r matches Err(AppError::BadRequest(m)) && m@
            == "MFA already set up — verify instead"@),
        (mfa_pending && !mfa_enrolled) ==> r is Ok,
{
    if !mfa_pending {
        return Err(AppError::BadRequest(String::from_str("already authenticated")));
    }
    if mfa_enrolled {
        return Err(AppError::BadRequest(String::from_str("MFA already set up — verify instead")));
    }
    Ok(())
}

/// Where a second-factor check stands before the code is looked at.
#[derive(Debug, PartialEq, Eq, Structural)]
pub enum MfaStep {
    /// The session is already full; nothing to verify.
    AlreadyVerified,
    /// Check the code against the stored secret.
    CheckCode,
}

pub fn mfa_step(mfa_pending: bool, has_secret: bool) -> (r: Result<MfaStep, AppError>)
    ensures
        !mfa_pending ==> r == Ok::<MfaStep, AppError>(MfaStep::AlreadyVerified),
        (mfa_pending && !has_secret) ==> (r matches Err(AppError::BadRequest(m)) && m@
            == "start MFA enrollment first"@),
        (mfa_pending && has_secret) ==> r == Ok::<MfaStep, AppError>(MfaStep::CheckCode),
{
    if !mfa_pending {
        return Ok(MfaStep::AlreadyVerified);
    }
    if !has_secret {
        return Err(AppError::BadRequest(String::from_str("start MFA enrollment first")));
    }
    Ok(MfaStep::CheckCode)
}

/// `/me` answers only a full session.
pub fn full_session(mfa_pending: bool) -> (r: Result<(), AppError>)
    ensures
        mfa_pending ==> r matches Err(AppError::Unauthorized),
        !mfa_pending ==> r is Ok,
{
    if mfa_pending {
        Err(AppError::Unauthorized)
    } else {
        Ok(())
    }
}

#[derive(Debug)]
pub struct RequestLinkBody {
    pub email: String,
}

#[derive(Debug)]
pub struct VerifyBody {
    pub token: String,
}

#[derive(Debug)]
pub struct ReorderBody {
    pub order_type: OrderType,
    pub size: BottleSize,
    pub mix_id: Option<u128>,
    pub scent_id: Option<u128>,
}

/// Whether the configured preview address signs straight in: it must be set
/// to something besides whitespace and equal the (already normalised) address
/// once trimmed and lower-cased itself.
pub fn bypass_matches(bypass: Option<&str>, email: &str) -> (r: bool)
    ensures
        r == match bypass {
            Some(b) => !is_blank(lowercase(spec_trim(b@))) && lowercase(spec_trim(b@)) == email@,
            None => false,
        },
{
    match bypass {
        Some(b) => {
            let norm = to_lowercase(trim(b));
            !crate::text::blank(norm.as_str()) && str_eq(norm.as_str(), email)
        },
        None => false,
    }
}

/// The single-use sign-in link mailed to a customer.
pub fn magic_link(site: &str, token: &str) -> (r: String)
    ensures
        r@ == site@ + "/portal/verify?token="@ + token@,
{
    let mut s = String::new();
    push_str(&mut s, site);
    push_str(&mut s, "/portal/verify?token=");
    push_str(&mut s, token);
    s
}

/// What a reorder has to be checked against before it is placed.
#[derive(Debug, PartialEq, Eq, Structural)]
pub enum ReorderCheck {
    /// The customer must own this mix.
    OwnsMix(u128),
    /// The customer must have ordered this scent before, and it must be active.
    HadScent(u128),
}

/// A custom-mix reorder names a mix; a set-perfume reorder names a scent.
pub fn reorder_check(body: &ReorderBody) -> (r: Result<ReorderCheck, AppError>)
    ensures
        match body.order_type {
            OrderType::CustomMix => match body.mix_id {
                Some(id) => r == Ok::<ReorderCheck, AppError>(ReorderCheck::OwnsMix(id)),
                None => r matches Err(AppError::BadRequest(m)) && m@ == "mix_id is required"@,
            },
            OrderType::SetPerfume => match body.scent_id {
                Some(id) => r == Ok::<ReorderCheck, AppError>(ReorderCheck::HadScent(id)),
                None => r matches Err(AppError::BadRequest(m)) && m@ == "scent_id is required"@,
            },
        },
{
    match body.order_type {
        OrderType::CustomMix => match body.mix_id {
            Some(id) => Ok(ReorderCheck::OwnsMix(id)),
            None => Err(AppError::BadRequest(String::from_str("mix_id is required"))),
        },
        OrderType::SetPerfume => match body.scent_id {
            Some(id) => Ok(ReorderCheck::HadScent(id)),
            None => Err(AppError::BadRequest(String::from_str("scent_id is required"))),
        },
    }
}

/// The answer when the check fails: a mix that is not theirs is not found; a
/// scent they cannot reorder is refused.
pub fn reorder_allowed(check: &ReorderCheck, passed: bool) -> (r: Result<(), AppError>)
    ensures
        passed ==> r is Ok,
        (!passed && check is OwnsMix) ==> (r matches Err(AppError::NotFound(m)) && m@ == "mix not found"@),
        (!passed && check is HadScent) ==> (r matches Err(AppError::BadRequest(m)) && m@
            == "that scent isn't available to reorder"@),
{
    if passed {
        return Ok(());
    }
    match check {
        ReorderCheck::OwnsMix(_) => Err(AppError::NotFound(String::from_str("mix not found"))),
        ReorderCheck::HadScent(_) => Err(AppError::BadRequest(String::from_str(
            "that scent isn't available to reorder",
        ))),
    }
}

} // verus!
