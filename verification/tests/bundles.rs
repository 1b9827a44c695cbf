use blendbar::bundles::{
    check_offered, component_weights, expand, package_total, split_bundle_price, validate, BundleItemInput, UpsertBundle,
};
use blendbar::error::AppError;
use blendbar::money::Amount;
use blendbar::order::{BottleSize, OrderType};

fn dollars(cents: u128) -> Amount {
    Amount { negative: false, mantissa: cents, scale: 2 }
}

fn perfume(scent: Option<u128>, quantity: i32) -> BundleItemInput {
    BundleItemInput { item_type: OrderType::SetPerfume, size: BottleSize::Oz3_4, scent_id: scent, quantity }
}

fn bundle(items: Vec<BundleItemInput>) -> UpsertBundle {
    UpsertBundle { name: "Date night".into(), description: None, price: dollars(9000), items, active: None }
}

fn message(r: Result<(), AppError>) -> String {
    match r {
        Err(AppError::BadRequest(m)) => m,
        other => panic!("expected a bad request, got {other:?}"),
    }
}

#[test]
fn a_package_definition_is_checked_in_order() {
    assert!(validate(&bundle(vec![perfume(Some(1), 1)])).is_ok());
    let mut b = bundle(vec![perfume(Some(1), 1)]);
    b.name = "  ".into();
    assert_eq!(message(validate(&b)), "a package needs a name");
    let mut b = bundle(vec![perfume(Some(1), 1)]);
    b.price = Amount { negative: true, mantissa: 1, scale: 2 };
    assert_eq!(message(validate(&b)), "price can't be negative");
    assert_eq!(message(validate(&bundle(vec![]))), "a package needs at least one item in it");
    assert_eq!(message(validate(&bundle(vec![perfume(Some(1), 1); 13]))), "a package is limited to 12 items");
    assert_eq!(message(validate(&bundle(vec![perfume(Some(1), 1), perfume(None, 1)]))), "choose a scent for each set-perfume item");
    assert_eq!(message(validate(&bundle(vec![perfume(Some(1), 0)]))), "quantity must be at least 1");
    let blend = BundleItemInput { item_type: OrderType::CustomMix, size: BottleSize::Roller, scent_id: Some(2), quantity: 1 };
    assert_eq!(message(validate(&bundle(vec![blend]))), "a custom-blend item can't name a scent");
}

#[test]
fn a_package_at_intake_must_be_offered() {
    assert_eq!(message(check_offered("Date night", false, 2)), "the \"Date night\" package is no longer offered");
    assert_eq!(message(check_offered("Date night", true, 0)), "the \"Date night\" package has no items in it");
    assert!(check_offered("Date night", true, 1).is_ok());
}

#[test]
fn components_weigh_their_catalogue_price() {
    let cs = vec![perfume(Some(1), 2), perfume(Some(2), 1)];
    let w = component_weights(&vec![Some(dollars(6000)), None], &cs);
    assert_eq!(w, vec![12000, 0]);
    assert_eq!(package_total("Date night", dollars(9000)).unwrap(), 9000);
    assert!(package_total("Date night", Amount { negative: true, mantissa: 1, scale: 0 }).is_err());
}

#[test]
fn a_package_expands_into_unit_priced_lines() {
    let cs = vec![perfume(Some(1), 2), perfume(Some(2), 1)];
    let lines = expand("Date night", &cs, &vec![12000, 6000], 9000, &vec![true, true]).unwrap();
    assert_eq!(lines.len(), 2);
    assert_eq!((lines[0].quantity, lines[0].unit_cents, lines[0].scent_id), (2, 3000, 1));
    assert_eq!((lines[1].quantity, lines[1].unit_cents, lines[1].scent_id), (1, 3000, 2));
    let blend = BundleItemInput { item_type: OrderType::CustomMix, size: BottleSize::Roller, scent_id: None, quantity: 1 };
    assert!(matches!(
        expand("Date night", &vec![blend], &vec![0], 1000, &vec![true]),
        Err(AppError::BadRequest(m)) if m.contains("contains a custom blend")
    ));
    assert!(matches!(
        expand("Date night", &cs, &vec![1, 1], 1000, &vec![true, false]),
        Err(AppError::BadRequest(m)) if m == "scent_id is invalid or inactive"
    ));
}

#[test]
fn the_parts_add_up_to_the_package_price() {
    let lines = expand("Trio", &vec![perfume(Some(1), 3)], &vec![5], 1000, &vec![true]).unwrap();
    assert_eq!(lines.len(), 2);
    assert_eq!((lines[0].quantity, lines[0].unit_cents), (2, 333));
    assert_eq!((lines[1].quantity, lines[1].unit_cents), (1, 334));
    let total: i64 = lines.iter().map(|l| l.unit_cents * l.quantity as i64).sum();
    assert_eq!(total, 1000);
    let cs = vec![perfume(Some(1), 2), perfume(Some(2), 3), perfume(Some(3), 1)];
    let lines = expand("Mix", &cs, &vec![4500, 2600, 1999], 7777, &vec![true, true, true]).unwrap();
    let total: i64 = lines.iter().map(|l| l.unit_cents * l.quantity as i64).sum();
    assert_eq!(total, 7777);
}

#[test]
fn the_price_splits_by_weight_or_evenly() {
    assert_eq!(split_bundle_price(9000, &vec![12000, 6000]), vec![6000, 3000]);
    assert_eq!(split_bundle_price(100, &vec![0, 0, 0]), vec![33, 33, 34]);
    assert_eq!(split_bundle_price(50, &vec![-5, 10]), vec![0, 50]);
    assert_eq!(split_bundle_price(10, &vec![1, 1, 1]), vec![3, 3, 4]);
    assert!(split_bundle_price(10, &vec![]).is_empty());
}
