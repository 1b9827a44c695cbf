use blendbar::deletions::{
    assess_customer, bundle_deletion, customer_deletion, deleted_something, ingredient_deletion, mix_deletion,
    order_deletion, scent_deletion,
};
use blendbar::error::AppError;

fn conflict(r: Result<(), AppError>) -> String {
    match r {
        Err(AppError::Conflict(m)) => m,
        other => panic!("expected a conflict, got {other:?}"),
    }
}

#[test]
fn a_paid_customer_cannot_be_deleted() {
    let paid = assess_customer(1, "a@b.co".into(), 3, 1, 2, 2);
    assert!(!paid.can_delete);
    assert_eq!(
        conflict(customer_deletion(&paid)),
        "this customer has 2 paid or refunded cart(s). Deleting them would break reconciliation against Square, which keeps its own record. Their history has to stay."
    );
    let unpaid = assess_customer(1, "a@b.co".into(), 3, 1, 2, 0);
    assert!(unpaid.can_delete);
    assert_eq!(unpaid.reason, None);
    assert!(customer_deletion(&unpaid).is_ok());
}

#[test]
fn what_money_touched_stays() {
    assert_eq!(conflict(mix_deletion(2)), "this blend is on 2 order(s) — delete those first, or keep it for the customer's history");
    assert!(mix_deletion(0).is_ok());
    assert!(order_deletion("lead", 0).is_ok());
    assert!(order_deletion("paid", 0).is_err());
    assert!(order_deletion("lead", 1).is_err());
    assert_eq!(
        conflict(ingredient_deletion(0, 3)),
        "this ingredient is used in 0 blend(s) and 3 house formula(s) — deactivate it instead"
    );
    assert_eq!(conflict(scent_deletion(1, 0)), "this scent is on 1 order(s) and 0 package(s) — deactivate it instead");
    assert!(scent_deletion(0, 0).is_ok());
    assert!(conflict(bundle_deletion(4)).starts_with("this package has been sold 4 time(s)"));
    assert!(matches!(deleted_something(0, "blend"), Err(AppError::NotFound(m)) if m == "blend not found"));
    assert!(deleted_something(1, "blend").is_ok());
}
