use blendbar::cart::{Cart, CartItem, CartStatus};
use blendbar::checkout::{
    cancel_outcome, check_cart_size, checkout_failure, checkout_push, checkout_start, no_payment_yet, one, other_kind,
    plan_ad_hoc_line, plan_order_line, qr_link, refresh_detail, refresh_target, AdHocItemInput, CheckoutStart,
};
use blendbar::error::AppError;
use blendbar::money::Amount;
use blendbar::order::{BottleSize, Order, OrderStatus, OrderType};
use blendbar::square::{RemotePayment, SquareError};

fn cart(status: CartStatus, total: i64) -> Cart {
    Cart {
        id: 5,
        customer_id: 1,
        status,
        currency: "USD".into(),
        total_cents: total,
        paid_cents: None,
        idempotency_key: "key-5".into(),
        note: Some("for the stand".into()),
        square_order_id: None,
        square_payment_link_id: None,
        checkout_url: None,
        created_at: 0,
        paid_at: None,
    }
}

fn item(qty: i32, cents: i64) -> CartItem {
    CartItem { id: 1, cart_id: 5, order_id: None, name: "Fee".into(), quantity: qty, unit_amount_cents: cents, kind: "fee".into() }
}

fn order(customer: u128, status: OrderStatus, amount: Option<Amount>) -> Order {
    Order {
        id: 9,
        customer_id: customer,
        order_type: OrderType::SetPerfume,
        size: BottleSize::Oz1_7,
        quantity: 2,
        mix_id: None,
        scent_id: Some(3),
        status,
        amount,
        intake_id: None,
        bundle_id: None,
        external_ref: None,
    }
}

#[test]
fn defaults() {
    assert_eq!(one(), 1);
    assert_eq!(other_kind(), "other");
}

#[test]
fn a_cart_is_sized() {
    assert!(matches!(check_cart_size(0, 0), Err(AppError::BadRequest(m)) if m == "a cart needs at least one line"));
    assert!(check_cart_size(1, 0).is_ok());
    assert!(check_cart_size(30, 21).is_err());
}

#[test]
fn an_unsold_order_becomes_a_line() {
    let price = Amount { negative: false, mantissa: 6000, scale: 2 };
    let l = plan_order_line(1, 9, &Some(order(1, OrderStatus::Lead, Some(price)))).unwrap();
    assert_eq!(l.unit_amount_cents, 6000);
    assert_eq!(l.quantity, 1);
    assert_eq!(l.name, "Set perfume (1.7 oz)");
    assert_eq!(l.order_id, Some(9));
    assert!(matches!(
        plan_order_line(2, 9, &Some(order(1, OrderStatus::Lead, Some(price)))),
        Err(AppError::BadRequest(m)) if m == "order 00000000-0000-0000-0000-000000000009 belongs to a different customer"
    ));
    assert!(matches!(
        plan_order_line(1, 9, &Some(order(1, OrderStatus::Lead, None))),
        Err(AppError::BadRequest(m)) if m == "order 00000000-0000-0000-0000-000000000009 has no amount — price it before selling it"
    ));
    let negative = Amount { negative: true, mantissa: 150, scale: 2 };
    assert!(matches!(
        plan_order_line(1, 9, &Some(order(1, OrderStatus::Lead, Some(negative)))),
        Err(AppError::BadRequest(m)) if m == "order 00000000-0000-0000-0000-000000000009 has an invalid amount: -1.50"
    ));
    assert!(matches!(plan_order_line(1, 9, &None), Err(AppError::NotFound(m)) if m == "order 00000000-0000-0000-0000-000000000009 not found"));
}

#[test]
fn an_ad_hoc_line_is_checked() {
    let ok = AdHocItemInput {
        name: "Event deposit".into(),
        quantity: 1,
        unit_amount: Amount { negative: false, mantissa: 2500, scale: 1 },
        kind: "event_deposit".into(),
    };
    let l = plan_ad_hoc_line(&ok).unwrap();
    assert_eq!(l.unit_amount_cents, 25000);
    let bad = AdHocItemInput { kind: "blend".into(), ..ok };
    assert!(plan_ad_hoc_line(&bad).is_err());
}

#[test]
fn checkout_is_safe_to_press_twice() {
    let mut c = cart(CartStatus::PendingPayment, 100);
    c.checkout_url = Some("https://pay".into());
    c.square_order_id = Some("o1".into());
    assert!(matches!(checkout_start(&c, &vec![item(1, 100)]), Ok(CheckoutStart::AlreadySent { .. })));
    let huge = vec![item(2, i64::MAX), item(2, i64::MAX)];
    assert!(matches!(
        checkout_start(&c, &huge),
        Ok(CheckoutStart::AlreadySent { checkout_url, square_order_id }) if checkout_url == "https://pay" && square_order_id == "o1"
    ));
    let open = cart(CartStatus::Open, 100);
    assert!(matches!(checkout_start(&open, &vec![item(1, 100)]), Ok(CheckoutStart::Send)));
    assert!(matches!(checkout_start(&open, &Vec::new()), Err(AppError::BadRequest(m)) if m == "cart is empty"));
    assert!(matches!(checkout_start(&open, &vec![item(2, 100)]), Err(AppError::Conflict(_))));
    let paid = cart(CartStatus::Paid, 100);
    assert!(matches!(checkout_start(&paid, &vec![item(1, 100)]), Err(AppError::Conflict(m)) if m == "cart is Paid and cannot be checked out again"));
}

#[test]
fn the_checkout_request_carries_the_cart() {
    let c = cart(CartStatus::Open, 200);
    let p = checkout_push(&c, &vec![item(2, 100)], "guest@example.com".into());
    assert_eq!(p.cart_id, 5);
    assert_eq!(p.idempotency_key, "key-5");
    assert_eq!(p.line_items.len(), 1);
    assert_eq!(p.line_items[0].quantity, 2);
    assert_eq!(p.note.as_deref(), Some("for the stand"));
    assert!(p.discounts.is_empty());
}

#[test]
fn failures_say_whether_to_retry() {
    let down = SquareError::Transport("timeout".into());
    assert!(matches!(checkout_failure(&down), AppError::Unavailable(m) if m == "Square is unavailable: transport error: timeout"));
    let refused = SquareError::Config("bad".into());
    assert!(matches!(checkout_failure(&refused), AppError::BadRequest(m) if m == "Square rejected the checkout: config error: bad"));
}

#[test]
fn refresh_and_cancel_answers() {
    let c = cart(CartStatus::Open, 100);
    assert!(matches!(refresh_target(&c), Err(AppError::BadRequest(m)) if m == "cart has not been sent to Square yet"));
    let p = RemotePayment {
        payment_id: "p".into(),
        square_order_id: None,
        status: "COMPLETED".into(),
        amount_cents: 6000,
        currency: "USD".into(),
        created_at: 0,
        refunded_cents: 0,
    };
    assert_eq!(refresh_detail(&p), "Square reports COMPLETED ($60.00).");
    assert_eq!(no_payment_yet(), "Square has no payment for this cart yet.");
    assert!(matches!(cancel_outcome(false), Err(AppError::Conflict(_))));
    assert!(cancel_outcome(true).is_ok());
    assert!(matches!(qr_link(None), Err(AppError::BadRequest(_))));
    assert_eq!(qr_link(Some("u".into())).unwrap(), "u");
}
