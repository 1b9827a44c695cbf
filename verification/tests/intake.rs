use blendbar::catalog::MixItemInput;
use blendbar::error::AppError;
use blendbar::intake::{
    check_intake, check_line, idempotency_key, line_amount, resolve_line, IntakeItemRequest, IntakeMixRequest, IntakeRequest,
    LineNeeds,
};
use blendbar::money::Amount;
use blendbar::order::{BottleSize, OrderType};

fn message<T: std::fmt::Debug>(r: Result<T, AppError>) -> String {
    match r {
        Err(AppError::BadRequest(m)) => m,
        other => panic!("expected a bad request, got {other:?}"),
    }
}

fn request(items: Vec<IntakeItemRequest>, bundle: Option<u128>) -> IntakeRequest {
    IntakeRequest {
        email: "a@b.co".into(),
        name: None,
        marketing_consent: false,
        scent_preference_ids: None,
        items,
        bundle_id: bundle,
    }
}

fn perfume(scent: Option<u128>, quantity: i32) -> IntakeItemRequest {
    IntakeItemRequest { order_type: OrderType::SetPerfume, size: BottleSize::Oz1_7, quantity, scent_id: scent, mix: None, amount: None }
}

fn blend(name: &str, ids: &[u128]) -> IntakeItemRequest {
    IntakeItemRequest {
        order_type: OrderType::CustomMix,
        size: BottleSize::Oz3_4,
        quantity: 1,
        scent_id: None,
        mix: Some(IntakeMixRequest {
            name: name.into(),
            items: ids.iter().map(|&i| MixItemInput { ingredient_id: i, amount_ml: Amount { negative: false, mantissa: 5, scale: 0 } }).collect(),
        }),
        amount: None,
    }
}

#[test]
fn a_submission_carries_a_key() {
    assert_eq!(idempotency_key(Some("k1")).unwrap(), "k1");
    assert_eq!(message(idempotency_key(Some(""))), "Idempotency-Key header is required");
    assert!(idempotency_key(None).is_err());
}

#[test]
fn an_intake_is_shaped_before_lines_are_read() {
    assert!(check_intake(&request(vec![perfume(Some(1), 1)], None)).is_ok());
    assert!(check_intake(&request(vec![], Some(4))).is_ok());
    assert_eq!(message(check_intake(&request(vec![], None))), "an intake needs at least one item");
    let mut r = request(vec![perfume(Some(1), 1)], None);
    r.email = "   ".into();
    assert_eq!(message(check_intake(&r)), "a valid email is required");
    let many: Vec<IntakeItemRequest> = (0..21).map(|_| perfume(Some(1), 1)).collect();
    assert_eq!(message(check_intake(&request(many, None))), "an intake is limited to 20 lines");
}

#[test]
fn each_line_says_what_to_confirm() {
    assert!(matches!(check_line(&perfume(Some(4), 1)), Ok(LineNeeds::ActiveScent(4))));
    assert_eq!(message(check_line(&perfume(None, 1))), "a set_perfume line needs a scent");
    assert_eq!(message(check_line(&perfume(Some(4), 51))), "quantity must be between 1 and 50");
    assert!(matches!(check_line(&blend("Rose", &[1, 2])), Ok(LineNeeds::ActiveIngredients(ids)) if ids == vec![1, 2]));
    assert_eq!(message(check_line(&blend("  ", &[1]))), "every custom blend needs a name");
    assert_eq!(message(check_line(&blend("Rose", &[]))), "a custom blend needs at least one ingredient");
    assert_eq!(message(check_line(&blend("Rose", &[3, 3]))), "a mix cannot repeat the same ingredient twice");
    let mut b = blend("Rose", &[1]);
    b.scent_id = Some(2);
    assert_eq!(message(check_line(&b)), "scent_id must not be set for a custom_mix line");
}

#[test]
fn an_explicit_amount_overrides_the_catalogue() {
    let a = Amount { negative: false, mantissa: 100, scale: 0 };
    let c = Amount { negative: false, mantissa: 60, scale: 0 };
    assert_eq!(line_amount(Some(a), Some(c)), Some(a));
    assert_eq!(line_amount(None, Some(c)), Some(c));
    assert_eq!(line_amount(None, None), None);
}

#[test]
fn a_line_resolves_once_the_catalogue_agrees() {
    let l = resolve_line(blend("Rose", &[1, 2]), 2, false, None).unwrap();
    assert_eq!(l.order_type, OrderType::CustomMix);
    assert_eq!(l.mix.unwrap().name, "Rose");
    assert_eq!(message(resolve_line(blend("Rose", &[1, 2]), 1, true, None)), "one or more ingredients are invalid or inactive");
    let mut zero = blend("Rose", &[1]);
    zero.mix.as_mut().unwrap().items[0].amount_ml = Amount { negative: false, mantissa: 0, scale: 0 };
    assert_eq!(message(resolve_line(zero, 1, true, None)), "amount_ml must be positive");
    assert_eq!(message(resolve_line(perfume(Some(4), 1), 0, false, None)), "scent_id is invalid or inactive");
    let p = resolve_line(perfume(Some(4), 2), 0, true, Some(8)).unwrap();
    assert_eq!((p.quantity, p.scent_id, p.bundle_id), (2, Some(4), Some(8)));
}
