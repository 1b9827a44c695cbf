use blendbar::json::{get, Json};
use blendbar::square::{CheckoutPush, CustomerPush, DiscountPush, LineItemPush, SquareEnv};
use blendbar::square_requests::{customer_body, customer_path, customer_search_body, env_from, payment_link_body, square_config};

fn text<'a>(j: Option<&'a Json>) -> Option<&'a str> {
    match j {
        Some(Json::String(s)) => Some(s.as_str()),
        _ => None,
    }
}

#[test]
fn live_only_with_a_token_and_a_location() {
    assert!(square_config(Some("t".into()), Some("L".into()), None, None).is_some());
    assert!(square_config(Some(" ".into()), Some("L".into()), None, None).is_none());
    assert!(square_config(None, Some("L".into()), None, None).is_none());
    let c = square_config(Some("t".into()), Some("L".into()), Some("prod"), Some(" ".into())).unwrap();
    assert_eq!(c.env, SquareEnv::Production);
    assert_eq!(c.redirect_url, None);
    assert_eq!(env_from(Some("production")), SquareEnv::Production);
    assert_eq!(env_from(Some("Production")), SquareEnv::Sandbox);
    assert_eq!(env_from(None), SquareEnv::Sandbox);
}

#[test]
fn the_payment_link_request() {
    let push = CheckoutPush {
        cart_id: 1,
        idempotency_key: "k".into(),
        currency: "USD".into(),
        buyer_email: Some("a@b.co".into()),
        line_items: vec![LineItemPush { name: "Amber".into(), quantity: -2, unit_amount_cents: 600 }],
        discounts: Vec::new(),
        redirect_url: None,
        note: Some("n".into()),
    };
    let b = payment_link_body(&push, "LOC", &Some("https://shop/thanks".into()));
    assert_eq!(text(get(&b, "idempotency_key")), Some("k"));
    let order = get(&b, "order").unwrap();
    assert_eq!(text(get(order, "location_id")), Some("LOC"));
    assert_eq!(text(get(order, "reference_id")), Some("00000000-0000-0000-0000-000000000001"));
    assert_eq!(text(get(order, "note")), Some("n"));
    let Some(Json::Array(lines)) = get(order, "line_items") else { panic!("no lines") };
    assert_eq!(text(get(&lines[0], "quantity")), Some("-2"));
    let opts = get(&b, "checkout_options").unwrap();
    assert_eq!(text(get(opts, "redirect_url")), Some("https://shop/thanks"));
    assert!(matches!(get(opts, "ask_for_shipping_address"), Some(Json::Bool(false))));
    assert_eq!(text(get(get(&b, "pre_populated_data").unwrap(), "buyer_email")), Some("a@b.co"));
    assert!(get(order, "discounts").is_none());
}

#[test]
fn discounts_reach_the_payment_link_order() {
    let push = CheckoutPush {
        cart_id: 7,
        idempotency_key: "k7".into(),
        currency: "USD".into(),
        buyer_email: None,
        line_items: vec![LineItemPush { name: "Amber".into(), quantity: 2, unit_amount_cents: 3000 }],
        discounts: vec![DiscountPush { name: "Referral discount".into(), amount_cents: 500 }],
        redirect_url: None,
        note: Some("gift".into()),
    };
    let b = payment_link_body(&push, "LOC", &None);
    let order = get(&b, "order").unwrap();
    let Some(Json::Array(ds)) = get(order, "discounts") else { panic!("no discounts") };
    assert_eq!(ds.len(), 1);
    assert_eq!(text(get(&ds[0], "name")), Some("Referral discount"));
    assert_eq!(text(get(&ds[0], "type")), Some("FIXED_AMOUNT"));
    assert_eq!(text(get(&ds[0], "scope")), Some("ORDER"));
    let money = get(&ds[0], "amount_money").unwrap();
    assert!(matches!(get(money, "amount"), Some(Json::Number(Some(500)))));
    assert_eq!(text(get(money, "currency")), Some("USD"));
    assert_eq!(text(get(order, "note")), Some("gift"));
    assert!(get(&b, "checkout_options").is_none());
}

#[test]
fn consent_travels_as_its_inverse() {
    let c = CustomerPush { id: 2, email: "a@b.co".into(), name: Some("Ada".into()), marketing_consent: false };
    let create = customer_body(&c, true);
    let prefs = get(&create, "preferences").unwrap();
    assert!(matches!(get(prefs, "email_unsubscribed"), Some(Json::Bool(true))));
    assert_eq!(text(get(&create, "given_name")), Some("Ada"));
    assert_eq!(text(get(&create, "idempotency_key")), Some("00000000-0000-0000-0000-000000000002"));
    let update = customer_body(&CustomerPush { marketing_consent: true, ..c }, false);
    assert!(get(&update, "idempotency_key").is_none());
    assert!(matches!(get(get(&update, "preferences").unwrap(), "email_unsubscribed"), Some(Json::Bool(false))));
    assert_eq!(customer_path(Some("C1")), "/v2/customers/C1");
    assert_eq!(customer_path(None), "/v2/customers");
    let s = customer_search_body("a@b.co");
    assert!(matches!(get(&s, "limit"), Some(Json::Number(Some(1)))));
}
