use blendbar::cart::{Cart, CartStatus};
use blendbar::error::AppError;
use blendbar::reconcile::{reconcile, reconcile_period, reconcile_window, run_counts, RunCounts};
use blendbar::square::RemotePayment;

const DAY: i64 = 86_400_000_000;

fn cart(id: u128, status: CartStatus, total: i64, paid: Option<i64>, order: Option<&str>) -> Cart {
    Cart {
        id,
        customer_id: 1,
        status,
        currency: "USD".into(),
        total_cents: total,
        paid_cents: paid,
        idempotency_key: format!("k{id}"),
        note: None,
        square_order_id: order.map(String::from),
        square_payment_link_id: None,
        checkout_url: None,
        created_at: 10,
        paid_at: Some(20),
    }
}

fn payment(id: &str, order: Option<&str>, status: &str, cents: i64, refunded: i64) -> RemotePayment {
    RemotePayment {
        payment_id: id.into(),
        square_order_id: order.map(String::from),
        status: status.into(),
        amount_cents: cents,
        currency: "USD".into(),
        created_at: 15,
        refunded_cents: refunded,
    }
}

#[test]
fn a_matching_sale_balances() {
    let carts = vec![cart(1, CartStatus::Paid, 6000, Some(6000), Some("o1"))];
    let payments = vec![payment("p1", Some("o1"), "COMPLETED", 6000, 0)];
    let r = reconcile(0, DAY, "mock".into(), false, &payments, &carts, &Vec::new());
    assert_eq!(r.matched.len(), 1);
    assert!(r.balanced);
    assert_eq!(r.local_total_cents, 6000);
    assert_eq!(r.square_total_cents, 6000);
    assert_eq!(r.difference_cents, 0);
    assert_eq!(r.summary, "Balanced — 1 matched, $60.00 on both sides.");
}

#[test]
fn balanced_means_no_discrepancy_bucket_even_when_totals_differ() {
    let carts = vec![cart(1, CartStatus::Paid, 6000, Some(6000), Some("o1"))];
    let payments = vec![
        payment("p1", Some("o1"), "COMPLETED", 6000, 0),
        payment("p2", Some("o1"), "COMPLETED", 6000, 0),
    ];
    let r = reconcile(0, DAY, "mock".into(), false, &payments, &carts, &Vec::new());
    assert!(r.amount_mismatch.is_empty());
    assert!(r.missing_in_square.is_empty());
    assert!(r.unrecorded_payment.is_empty());
    assert!(r.missing_locally.is_empty());
    assert_eq!(r.square_total_cents, 12000);
    assert_eq!(r.local_total_cents, 6000);
    assert!(r.balanced);
}

#[test]
fn every_discrepancy_lands_in_its_bucket() {
    let carts = vec![
        cart(1, CartStatus::Paid, 6000, Some(6000), Some("o1")),
        cart(2, CartStatus::Paid, 3000, Some(3000), Some("o2")),
        cart(3, CartStatus::PendingPayment, 2000, None, Some("o3")),
    ];
    let payments = vec![
        payment("p1", Some("o1"), "COMPLETED", 6500, 0),
        payment("p3", Some("o3"), "COMPLETED", 2000, 0),
        payment("p9", None, "COMPLETED", 100, 0),
    ];
    let r = reconcile(0, DAY, "square-sandbox".into(), true, &payments, &carts, &Vec::new());
    assert_eq!(r.amount_mismatch.len(), 1);
    assert_eq!(r.amount_mismatch[0].difference_cents, 500);
    assert_eq!(r.missing_in_square.len(), 1);
    assert_eq!(r.missing_in_square[0].cart_id, 2);
    assert_eq!(r.unrecorded_payment.len(), 1);
    assert_eq!(r.unrecorded_payment[0].cart_id, 3);
    assert_eq!(r.missing_locally.len(), 1);
    assert_eq!(r.missing_locally[0].square_payment_id, "p9");
    assert!(!r.balanced);
}

#[test]
fn the_window_is_bounded() {
    assert_eq!(reconcile_window(Some(0), Some(DAY), 5).unwrap(), (0, DAY));
    assert!(reconcile_window(Some(DAY), Some(DAY), 5).is_err());
    assert!(reconcile_window(Some(0), Some(93 * DAY), 5).is_err());
    assert_eq!(reconcile_window(None, Some(40 * DAY), 5).unwrap(), (33 * DAY, 40 * DAY));
}

#[test]
fn a_report_covers_exactly_an_accepted_window() {
    let carts = vec![cart(1, CartStatus::Paid, 6000, Some(6000), Some("o1"))];
    let payments = vec![payment("p1", Some("o1"), "COMPLETED", 6000, 0)];
    let none: Vec<Cart> = Vec::new();
    let r = reconcile_period(Some(0), Some(DAY), 5 * DAY, "mock".into(), false, &payments, &carts, &none).unwrap();
    assert_eq!((r.period_start, r.period_end), (0, DAY));
    assert!(r.balanced);
    let r = reconcile_period(None, None, 100 * DAY, "mock".into(), false, &payments, &carts, &none).unwrap();
    assert_eq!((r.period_start, r.period_end), (93 * DAY, 100 * DAY));
    assert!(matches!(
        reconcile_period(Some(DAY), Some(DAY), 0, "mock".into(), false, &payments, &carts, &none),
        Err(AppError::BadRequest(m)) if m == "`from` must be before `to`"
    ));
    assert!(matches!(
        reconcile_period(Some(0), Some(93 * DAY), 0, "mock".into(), false, &payments, &carts, &none),
        Err(AppError::BadRequest(m)) if m == "window is limited to 92 days"
    ));
}

#[test]
fn a_saved_run_counts_unrecorded_payments_as_mismatches() {
    let carts = vec![
        cart(1, CartStatus::Paid, 6000, Some(6000), Some("o1")),
        cart(2, CartStatus::Paid, 3000, Some(3000), Some("o2")),
        cart(3, CartStatus::PendingPayment, 2000, None, Some("o3")),
        cart(4, CartStatus::Paid, 1000, Some(1000), Some("o4")),
    ];
    let payments = vec![
        payment("p1", Some("o1"), "COMPLETED", 6500, 0),
        payment("p3", Some("o3"), "COMPLETED", 2000, 0),
        payment("p4", Some("o4"), "COMPLETED", 1000, 0),
        payment("p9", None, "COMPLETED", 100, 0),
    ];
    let r = reconcile(0, DAY, "mock".into(), false, &payments, &carts, &Vec::new());
    assert_eq!(run_counts(&r), RunCounts { matched: 1, mismatched: 2, missing_in_square: 1, missing_locally: 1 });
}
