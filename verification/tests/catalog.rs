use blendbar::catalog::{
    assert_active_ingredients, bucket_by_parent, check_active_count, check_mix_items, validate_formula, assert_active_scent, check_amounts, check_ingredient_ids, ingredient_ids,
    require_name, MixItemInput,
};
use blendbar::error::AppError;
use blendbar::money::Amount;

fn ml(mantissa: u128, negative: bool) -> Amount {
    Amount { negative, mantissa, scale: 1 }
}

fn message(r: Result<(), AppError>) -> String {
    match r {
        Err(AppError::BadRequest(m)) => m,
        other => panic!("expected a bad request, got {other:?}"),
    }
}

#[test]
fn a_formula_has_between_one_and_eight_distinct_ingredients() {
    assert_eq!(message(check_ingredient_ids(&vec![])), "a mix needs at least 1 ingredient");
    assert_eq!(message(check_ingredient_ids(&(1..=9).collect())), "a mix may have at most 8 ingredients");
    assert_eq!(message(check_ingredient_ids(&vec![1, 2, 1])), "a mix cannot repeat the same ingredient twice");
    assert!(check_ingredient_ids(&(1..=8).collect()).is_ok());
}

#[test]
fn every_ingredient_must_be_active() {
    assert!(check_active_count(3, 3).is_ok());
    assert!(assert_active_ingredients(&vec![1, 2], 2).is_ok());
    assert_eq!(message(assert_active_ingredients(&vec![1, 2], 1)), "one or more ingredients are invalid or inactive");
    assert_eq!(message(assert_active_ingredients(&vec![1, 1], 0)), "a mix cannot repeat the same ingredient twice");
    assert_eq!(message(check_active_count(2, 3)), "one or more ingredients are invalid or inactive");
    assert!(assert_active_scent(true).is_ok());
    assert_eq!(message(assert_active_scent(false)), "scent_id is invalid or inactive");
}

#[test]
fn amounts_must_be_positive() {
    let good = vec![MixItemInput { ingredient_id: 1, amount_ml: ml(15, false) }];
    assert!(check_amounts(&good).is_ok());
    let zero = vec![MixItemInput { ingredient_id: 1, amount_ml: ml(0, false) }];
    assert_eq!(message(check_amounts(&zero)), "amount_ml must be positive");
    let negative = vec![MixItemInput { ingredient_id: 1, amount_ml: ml(5, true) }];
    assert!(check_amounts(&negative).is_err());
    assert_eq!(ingredient_ids(&good), vec![1]);
}

#[test]
fn names_are_required_and_trimmed() {
    assert_eq!(require_name("  Vetiver ").unwrap(), "Vetiver");
    assert!(matches!(require_name(" "), Err(AppError::BadRequest(m)) if m == "name is required"));
}

#[test]
fn bucketing_keeps_every_row_once_in_order() {
    let parents = vec![10, 20, 30];
    let rows = vec![20, 10, 20, 99, 10];
    let b = bucket_by_parent(&parents, &rows);
    assert_eq!(b, vec![vec![1, 4], vec![0, 2], vec![]]);
    let repeated = bucket_by_parent(&vec![10, 10], &vec![10]);
    assert_eq!(repeated, vec![vec![0], vec![]]);
}

#[test]
fn a_scent_formula_may_be_empty_but_a_blend_may_not() {
    assert!(validate_formula(&vec![], 0).is_ok());
    assert_eq!(message(check_mix_items(&vec![], 0)), "a mix needs at least 1 ingredient");
    let items = vec![MixItemInput { ingredient_id: 1, amount_ml: ml(0, false) }];
    assert_eq!(message(validate_formula(&items, 1)), "amount_ml must be positive");
    assert_eq!(message(validate_formula(&items, 0)), "one or more ingredients are invalid or inactive");
}
