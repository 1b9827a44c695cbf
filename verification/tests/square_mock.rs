use blendbar::square::{CheckoutPush, CustomerPush, DiscountPush, LineItemPush};
use blendbar::square_mock::MockSquare;

fn push(cart_id: u128, cents: i64, qty: i32) -> CheckoutPush {
    CheckoutPush {
        cart_id,
        idempotency_key: format!("{cart_id}"),
        currency: "USD".into(),
        buyer_email: Some("guest@example.com".into()),
        line_items: vec![LineItemPush { name: "Custom mix (3.4 oz)".into(), quantity: qty, unit_amount_cents: cents }],
        discounts: Vec::new(),
        redirect_url: None,
        note: None,
    }
}

fn new_id() -> u128 {
    uuid::Uuid::new_v4().as_u128()
}

fn now() -> i64 {
    chrono::Utc::now().timestamp_micros()
}

const HOUR: i64 = 3_600_000_000;
const DAY: i64 = 24 * HOUR;

#[test]
fn checkout_records_a_findable_payment_for_the_cart_total() {
    let mut sq = MockSquare::default();
    let handle = sq.create_checkout(&push(new_id(), 6000, 2)).unwrap();
    let found = sq.find_payment_for_order(&handle.square_order_id).expect("payment should exist for the order");
    assert_eq!(found.amount_cents, 12000, "quantity must multiply through");
    assert!(found.is_completed());
}

#[test]
fn repeated_checkout_is_stable_and_does_not_duplicate() {
    let mut sq = MockSquare::default();
    let cart_id = new_id();
    let a = sq.create_checkout(&push(cart_id, 6000, 1)).unwrap();
    let b = sq.create_checkout(&push(cart_id, 6000, 1)).unwrap();
    assert_eq!(a.square_order_id, b.square_order_id);
    let all = sq.list_payments(now() - HOUR, now());
    assert_eq!(all.len(), 1, "same cart must not create a second payment");
}

#[test]
fn list_payments_respects_the_window() {
    let mut sq = MockSquare::default();
    sq.create_checkout(&push(new_id(), 100, 1)).unwrap();
    let past_start = now() - 10 * DAY;
    let past_end = now() - 9 * DAY;
    assert!(sq.list_payments(past_start, past_end).is_empty());
}

#[test]
fn voiding_a_checkout_makes_it_unpayable() {
    let mut sq = MockSquare::default();
    let handle = sq.create_checkout(&push(new_id(), 6000, 1)).unwrap();
    sq.void_checkout(&handle.payment_link_id).unwrap();
    assert!(sq.find_payment_for_order(&handle.square_order_id).is_none());
}

#[test]
fn voiding_twice_is_not_an_error() {
    let mut sq = MockSquare::default();
    let handle = sq.create_checkout(&push(new_id(), 100, 1)).unwrap();
    sq.void_checkout(&handle.payment_link_id).unwrap();
    assert!(sq.void_checkout(&handle.payment_link_id).is_ok());
}

#[test]
fn empty_cart_is_refused() {
    let mut sq = MockSquare::default();
    let mut p = push(new_id(), 100, 1);
    p.line_items.clear();
    assert!(sq.create_checkout(&p).is_err());
}

#[test]
fn the_mock_ids_are_derived_from_the_cart() {
    let mut sq = MockSquare::default();
    let id = 0x0123_4567_89ab_cdef_0123_4567_89ab_cdefu128;
    let handle = sq.create_checkout(&push(id, 100, 1)).unwrap();
    assert_eq!(handle.square_order_id, "mock_ord_0123456789abcdef0123456789abcdef");
    assert_eq!(handle.payment_link_id, "mock_link_0123456789abcdef0123456789abcdef");
    assert_eq!(handle.url, "https://example.invalid/mock-checkout/0123456789abcdef0123456789abcdef");
    let p = sq.get_payment("mock_pay_0123456789abcdef0123456789abcdef").unwrap();
    assert_eq!(p.amount_cents, 100);
    assert!(sq.get_payment("mock_pay_nope").is_err());
}

#[test]
fn discounts_come_off_and_never_below_zero() {
    let mut sq = MockSquare::default();
    let mut p = push(new_id(), 1000, 2);
    p.discounts.push(DiscountPush { name: "Coupon".into(), amount_cents: 500 });
    let h = sq.create_checkout(&p).unwrap();
    assert_eq!(sq.find_payment_for_order(&h.square_order_id).unwrap().amount_cents, 1500);
    let mut q = push(new_id(), 100, 1);
    q.discounts.push(DiscountPush { name: "Referral discount".into(), amount_cents: 500 });
    let h = sq.create_checkout(&q).unwrap();
    assert_eq!(sq.find_payment_for_order(&h.square_order_id).unwrap().amount_cents, 0);
}

#[test]
fn the_mock_customer_id_is_derived_from_ours() {
    let sq = MockSquare::default();
    let c = CustomerPush { id: 1, email: "a@b.co".into(), name: None, marketing_consent: false };
    assert_eq!(sq.upsert_customer(&c).unwrap(), "mock_cus_00000000000000000000000000000001");
    assert_eq!(sq.name(), "mock");
    assert!(!sq.is_live());
}

#[test]
fn totals_past_64_bit_cents_wrap_instead_of_failing() {
    let mut sq = MockSquare::default();
    let p = push(new_id(), i64::MAX, 2);
    let h = sq.create_checkout(&p).unwrap();
    // i64::MAX * 2 wraps to -2, which is charged as nothing.
    assert_eq!(sq.find_payment_for_order(&h.square_order_id).unwrap().amount_cents, 0);
    let mut q = push(new_id(), 1, 1);
    q.discounts.push(DiscountPush { name: "Coupon".into(), amount_cents: i64::MIN });
    let h = sq.create_checkout(&q).unwrap();
    // 1 - i64::MIN wraps to i64::MIN + 1, below zero.
    assert_eq!(sq.find_payment_for_order(&h.square_order_id).unwrap().amount_cents, 0);
}
