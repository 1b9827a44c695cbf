use blendbar::json::{get, Json};
use blendbar::money::Amount;
use blendbar::squarespace::{contact_body, order_body, read_id, sync_api_failure, uses_live_client, ContactPush, MockSquarespace, OrderPush, SyncError};

#[test]
fn the_mock_ids_are_derived_from_ours() {
    let m = MockSquarespace;
    let c = ContactPush { id: 255, email: "a@b.co".into(), name: None, marketing_consent: true };
    assert_eq!(m.upsert_contact(&c).unwrap(), "mock_contact_000000000000000000000000000000ff");
    let o = OrderPush {
        id: 1,
        email: "a@b.co".into(),
        name: None,
        order_type: "custom_mix".into(),
        size: "oz3_4".into(),
        status: "lead".into(),
        amount: None,
        description: "Custom mix".into(),
    };
    assert_eq!(m.create_order(&o).unwrap(), "mock_order_00000000000000000000000000000001");
    assert_eq!(m.name(), "mock");
}

#[test]
fn retry_only_what_can_recover() {
    assert!(SyncError::Transport("t".into()).retryable());
    assert!(!SyncError::Config("c".into()).retryable());
    assert!(sync_api_failure(502, "x".into()).retryable());
    assert!(sync_api_failure(429, "x".into()).retryable());
    assert!(!sync_api_failure(401, "x".into()).retryable());
    assert_eq!(sync_api_failure(401, "nope".into()).message(), "api error 401: nope");
    assert_eq!(SyncError::Config("no key".into()).message(), "config error: no key");
}

#[test]
fn the_live_client_needs_a_key() {
    assert!(uses_live_client(Some("k")));
    assert!(!uses_live_client(Some("  ")));
    assert!(!uses_live_client(None));
}

#[test]
fn reads_the_created_id() {
    let ok = Json::Object(vec![("id".into(), Json::String("sq_1".into()))]);
    assert_eq!(read_id(&ok, "{}").unwrap(), "sq_1");
    assert!(matches!(read_id(&Json::Null, "null"), Err(SyncError::Config(m)) if m == "no `id` field in response: null"));
}

#[test]
fn request_bodies() {
    let c = ContactPush { id: 1, email: "a@b.co".into(), name: None, marketing_consent: true };
    let b = contact_body(&c);
    assert!(matches!(get(&b, "firstName"), Some(Json::Null)));
    assert!(matches!(get(&b, "acceptsMarketing"), Some(Json::Bool(true))));
    let o = OrderPush {
        id: 1,
        email: "a@b.co".into(),
        name: None,
        order_type: "set_perfume".into(),
        size: "roller".into(),
        status: "lead".into(),
        amount: Some(Amount { negative: false, mantissa: 4550, scale: 2 }),
        description: "Amber".into(),
    };
    let b = order_body(&o);
    assert!(matches!(get(&b, "grandTotal"), Some(Json::String(s)) if s == "45.50"));
    assert!(matches!(get(&b, "externalOrderReference"), Some(Json::String(s)) if s == "00000000-0000-0000-0000-000000000001"));
}
