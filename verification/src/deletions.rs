//! Admin deletion of customers, mixes, orders and catalogue entries.
//!
//! One rule runs through all of it: nothing money has touched can be deleted.
//! A paid cart is a financial record that has to reconcile against Square, and
//! Square keeps its side forever. So deletions refuse rather than cascade, and
//! say what to do instead.

use vstd::prelude::*;
use crate::error::AppError;
use crate::text::{int_text, push_i64, push_str, str_eq};

verus! {

/// What deleting a customer would take with it, shown before the fact.
#[derive(Debug)]
pub struct DeletionImpact {
    pub customer_id: u128,
    pub email: String,
    pub orders: i64,
    pub mixes: i64,
    pub carts: i64,
    /// Carts that were actually paid (or refunded). Non-zero refuses deletion.
    pub paid_carts: i64,
    pub can_delete: bool,
    pub reason: Option<String>,
}

pub open spec fn paid_carts_reason(paid_carts: int) -> Seq<char> {
    "this customer has "@ + int_text(paid_carts)
        + " paid or refunded cart(s). Deleting them would break reconciliation against Square, which keeps its own record. Their history has to stay."@
}

/// The assessment of a customer's deletion from the counts of what hangs off
/// them: refused, with the reason, exactly when any cart was paid.
pub fn assess_customer(customer_id: u128, email: String, orders: i64, mixes: i64, carts: i64, paid_carts: i64) -> (r: DeletionImpact)
    ensures
        r.customer_id == customer_id,
        r.email@ == email@,
        r.orders == orders,
        r.mixes == mixes,
        r.carts == carts,
        r.paid_carts == paid_carts,
        r.can_delete <==> paid_carts <= 0,
        r.can_delete <==> r.reason is None,
        paid_carts > 0 ==> (r.reason matches Some(m) && m@ == paid_carts_reason(paid_carts as int)),
{
    let reason = if paid_carts > 0 {
        let mut m = String::new();
        push_str(&mut m, "this customer has ");
        push_i64(&mut m, paid_carts);
        push_str(
            &mut m,
            " paid or refunded cart(s). Deleting them would break reconciliation against Square, which keeps its own record. Their history has to stay.",
        );
        Some(m)
    } else {
        None
    };
    DeletionImpact {
        customer_id,
        email,
        orders,
        mixes,
        carts,
        paid_carts,
        can_delete: reason.is_none(),
        reason,
    }
}

/// A customer is deleted only when the assessment allows it; otherwise the
/// reason is the answer.
pub fn customer_deletion(impact: &DeletionImpact) -> (r: Result<(), AppError>)
    ensures
        impact.can_delete ==> r is Ok,
        !impact.can_delete ==> (r matches Err(AppError::Conflict(m)) && m@ == match impact.reason {
            Some(x) => x@,
            None => "cannot delete"@,
        }),
{
    if impact.can_delete {
        return Ok(());
    }
    match &impact.reason {
        Some(x) => Err(AppError::Conflict(x.clone())),
        None => Err(AppError::Conflict(String::from_str("cannot delete"))),
    }
}

/// A saved blend is deleted only while no order points at it.
pub fn mix_deletion(used_by_orders: i64) -> (r: Result<(), AppError>)
    ensures
        used_by_orders <= 0 ==> r is Ok,
        used_by_orders > 0 ==> (r matches Err(AppError::Conflict(m)) && m@ == "this blend is on "@
            + int_text(used_by_orders as int)
            + " order(s) — delete those first, or keep it for the customer's history"@),
{
    if used_by_orders > 0 {
        let mut m = String::new();
        push_str(&mut m, "this blend is on ");
        push_i64(&mut m, used_by_orders);
        push_str(&mut m, " order(s) — delete those first, or keep it for the customer's history");
        return Err(AppError::Conflict(m));
    }
    Ok(())
}

/// An order is deleted only while it is an unsold lead on no paid cart.
pub fn order_deletion(status: &str, paid_carts: i64) -> (r: Result<(), AppError>)
    ensures
        (paid_carts <= 0 && status@ == "lead"@) ==> r is Ok,
        !(paid_carts <= 0 && status@ == "lead"@) ==> (r matches Err(AppError::Conflict(m)) && m@
            == "this order has been paid for — it stays, so the books still reconcile"@),
{
    if paid_carts > 0 || !str_eq(status, "lead") {
        return Err(AppError::Conflict(String::from_str(
            "this order has been paid for — it stays, so the books still reconcile",
        )));
    }
    Ok(())
}

/// An ingredient is deleted only when no blend and no house formula uses it;
/// otherwise deactivating it is the move.
pub fn ingredient_deletion(in_blends: i64, in_formulas: i64) -> (r: Result<(), AppError>)
    ensures
        (in_blends <= 0 && in_formulas <= 0) ==> r is Ok,
        !(in_blends <= 0 && in_formulas <= 0) ==> (r matches Err(AppError::Conflict(m)) && m@
            == "this ingredient is used in "@ + int_text(in_blends as int) + " blend(s) and "@ + int_text(
            in_formulas as int,
        ) + " house formula(s) — deactivate it instead"@),
{
    if in_blends > 0 || in_formulas > 0 {
        let mut m = String::new();
        push_str(&mut m, "this ingredient is used in ");
        push_i64(&mut m, in_blends);
        push_str(&mut m, " blend(s) and ");
        push_i64(&mut m, in_formulas);
        push_str(&mut m, " house formula(s) — deactivate it instead");
        return Err(AppError::Conflict(m));
    }
    Ok(())
}

/// A scent is deleted only when no order and no package names it; customer
/// preferences for it go with it.
pub fn scent_deletion(on_orders: i64, in_packages: i64) -> (r: Result<(), AppError>)
    ensures
        (on_orders <= 0 && in_packages <= 0) ==> r is Ok,
        !(on_orders <= 0 && in_packages <= 0) ==> (r matches Err(AppError::Conflict(m)) && m@
            == "this scent is on "@ + int_text(on_orders as int) + " order(s) and "@ + int_text(
            in_packages as int,
        ) + " package(s) — deactivate it instead"@),
{
    if on_orders > 0 || in_packages > 0 {
        let mut m = String::new();
        push_str(&mut m, "this scent is on ");
        push_i64(&mut m, on_orders);
        push_str(&mut m, " order(s) and ");
        push_i64(&mut m, in_packages);
        push_str(&mut m, " package(s) — deactivate it instead");
        return Err(AppError::Conflict(m));
    }
    Ok(())
}

/// A package that has been sold is only deactivated, so the orders sold under
/// it keep their history.
pub fn bundle_deletion(sold: i64) -> (r: Result<(), AppError>)
    ensures
        sold <= 0 ==> r is Ok,
        sold > 0 ==> (r matches Err(AppError::Conflict(m)) && m@ == "this package has been sold "@
            + int_text(sold as int)
            + " time(s) — deactivate it instead so those orders keep their history"@),
{
    if sold > 0 {
        let mut m = String::new();
        push_str(&mut m, "this package has been sold ");
        push_i64(&mut m, sold);
        push_str(&mut m, " time(s) — deactivate it instead so those orders keep their history");
        return Err(AppError::Conflict(m));
    }
    Ok(())
}

/// A delete that touched no row found nothing to delete.
pub fn deleted_something(rows_affected: u64, what: &str) -> (r: Result<(), AppError>)
    ensures
        rows_affected == 0 ==> (r matches Err(AppError::NotFound(m)) && m@ == what@ + " not found"@),
        rows_affected > 0 ==> r is Ok,
{
    if rows_affected == 0 {
        let mut m = String::new();
        push_str(&mut m, what);
        push_str(&mut m, " not found");
        return Err(AppError::NotFound(m));
    }
    Ok(())
}

} // verus!
