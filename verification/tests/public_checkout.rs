use blendbar::catalog::Scent;
use blendbar::error::AppError;
use blendbar::money::Amount;
use blendbar::order::BottleSize;
use blendbar::public_checkout::{
    buyer_name, checkout_email, checkout_unavailable, coupon_given, line_name, public_checkout_sale, public_checkout_start,
    public_push, public_scent, require_live, sale_cents, share_note, share_url, stored_referral_code,
};
use blendbar::square::SquareError;

#[test]
fn the_buyer_address_is_shallowly_checked() {
    assert_eq!(checkout_email("  Guest@Example.COM ").unwrap(), "guest@example.com");
    for bad in ["guest", "@example.com", "guest@", ""] {
        assert!(matches!(checkout_email(bad), Err(AppError::BadRequest(m)) if m == "a valid email is required"), "{bad}");
    }
    let long = format!("{}@x.co", "a".repeat(250));
    assert!(checkout_email(&long).is_err());
    let fits = format!("{}@x.co", "a".repeat(249));
    assert!(checkout_email(&fits).is_ok());
}

#[test]
fn a_long_name_is_cut() {
    assert_eq!(buyer_name(&Some("  Ada  ".into())), Some("Ada".to_string()));
    assert_eq!(buyer_name(&Some("   ".into())), None);
    assert_eq!(buyer_name(&None), None);
    assert_eq!(buyer_name(&Some("é".repeat(150))).unwrap().chars().count(), 100);
}

#[test]
fn the_price_comes_from_the_catalogue() {
    assert_eq!(sale_cents(Some(Amount { negative: false, mantissa: 4500, scale: 2 }), 7).unwrap(), 4500);
    assert!(matches!(sale_cents(None, 7), Err(AppError::BadRequest(m)) if m == "that size is not available for this scent"));
    assert!(matches!(sale_cents(Some(Amount { negative: false, mantissa: 0, scale: 2 }), 7), Err(AppError::BadRequest(_))));
    assert!(matches!(
        sale_cents(Some(Amount { negative: true, mantissa: 1, scale: 2 }), 7),
        Err(AppError::Internal(m)) if m == "scent 00000000-0000-0000-0000-000000000007 has an invalid price"
    ));
}

#[test]
fn the_mock_never_takes_a_paying_customer() {
    assert!(matches!(require_live(false), Err(AppError::Unavailable(m)) if m == "online checkout is not available right now"));
    assert!(require_live(true).is_ok());
    let e = checkout_unavailable(&SquareError::Config("secret detail".into()));
    assert!(matches!(e, AppError::Unavailable(m) if m == "could not start checkout — please try again"));
}

#[test]
fn the_share_link_pieces() {
    assert_eq!(line_name("Amber", BottleSize::Spray), "Amber (Spray (10 ml))");
    assert!(coupon_given(Some("SAVE5")));
    assert!(!coupon_given(Some("  ")));
    assert!(!coupon_given(None));
    assert_eq!(stored_referral_code(Some(" abc1 ")), Some("ABC1".to_string()));
    assert_eq!(share_note(), "Online order from a share link — to be crafted by staff");
    assert_eq!(share_url("https://shop", 1), "https://shop/s/00000000-0000-0000-0000-000000000001");
}

#[test]
fn the_share_checkout_request() {
    let p = public_push(1, "k".into(), "USD".into(), "a@b.co".into(), "Amber (3.4 oz)".into(), 6000, 500, true, "https://shop", None);
    assert_eq!(p.line_items.len(), 1);
    assert_eq!(p.line_items[0].unit_amount_cents, 6000);
    assert_eq!(p.discounts.len(), 1);
    assert_eq!(p.discounts[0].name, "Coupon");
    assert_eq!(p.redirect_url.as_deref(), Some("https://shop/thanks"));
    let q = public_push(1, "k".into(), "USD".into(), "a@b.co".into(), "x".into(), 6000, 0, false, "https://shop", None);
    assert!(q.discounts.is_empty());
}

#[test]
fn the_public_view_has_no_amounts() {
    let s = Scent {
        id: 3,
        name: "Amber".into(),
        active: true,
        price_oz3_4: Some(Amount { negative: false, mantissa: 6000, scale: 2 }),
        price_oz1_7: None,
        price_roller: None,
        price_spray: None,
    };
    let v = public_scent(s, vec!["Oud".into()]);
    assert_eq!(v.name, "Amber");
    assert_eq!(v.notes, vec!["Oud".to_string()]);
}

#[test]
fn a_share_checkout_is_refused_before_anything_is_written() {
    assert!(matches!(
        public_checkout_start(false, "a@b.co", &None),
        Err(AppError::TooManyRequests(m)) if m == "too many checkout attempts — please wait a minute and try again"
    ));
    assert!(matches!(public_checkout_start(true, "nobody", &None), Err(AppError::BadRequest(m)) if m == "a valid email is required"));
    let (email, name) = public_checkout_start(true, " A@B.co ", &Some("  Ada ".into())).unwrap();
    assert_eq!((email.as_str(), name.as_deref()), ("a@b.co", Some("Ada")));

    let price = Some(Amount { negative: false, mantissa: 6000, scale: 2 });
    let scent = || Some((7u128, "Amber".to_string()));
    assert!(matches!(
        public_checkout_sale("a@b.co".into(), None, None, BottleSize::Oz3_4, price, true),
        Err(AppError::NotFound(m)) if m == "scent not found"
    ));
    assert!(matches!(
        public_checkout_sale("a@b.co".into(), None, scent(), BottleSize::Oz3_4, None, true),
        Err(AppError::BadRequest(m)) if m == "that size is not available for this scent"
    ));
    assert!(matches!(
        public_checkout_sale("a@b.co".into(), None, scent(), BottleSize::Oz3_4, Some(Amount { negative: false, mantissa: 0, scale: 0 }), true),
        Err(AppError::BadRequest(_))
    ));
    assert!(matches!(
        public_checkout_sale("a@b.co".into(), None, scent(), BottleSize::Oz3_4, price, false),
        Err(AppError::Unavailable(m)) if m == "online checkout is not available right now"
    ));
    let sale = public_checkout_sale("a@b.co".into(), Some("Ada".into()), scent(), BottleSize::Oz3_4, price, true).unwrap();
    assert_eq!(sale.cents, 6000);
    assert_eq!(sale.scent_id, 7);
    assert_eq!(sale.email, "a@b.co");
    assert_eq!(sale.line, line_name("Amber", BottleSize::Oz3_4));
}
