use base64::engine::general_purpose::STANDARD as BASE64;
use base64::Engine as _;
use blendbar::json::Json;
use blendbar::error::AppError;
use blendbar::webhook::{
    extract_ids, receive_seen, receive_start, verify_signature, verify_squarespace_signature, EventRoute, ReceiveStep,
};
use hmac::{Hmac, Mac};
use sha2::Sha256;

type HmacSha256 = Hmac<Sha256>;

const KEY: &str = "test_signature_key";
const URL: &str = "https://sandbox.theblendbarokc.com/api/webhooks/square";

fn sign(key: &str, url: &str, body: &[u8]) -> String {
    let mut mac = HmacSha256::new_from_slice(key.as_bytes()).unwrap();
    mac.update(url.as_bytes());
    mac.update(body);
    BASE64.encode(mac.finalize().into_bytes())
}

fn json(v: &serde_json::Value) -> Json {
    match v {
        serde_json::Value::Null => Json::Null,
        serde_json::Value::Bool(b) => Json::Bool(*b),
        serde_json::Value::Number(n) => Json::Number(n.as_i64()),
        serde_json::Value::String(s) => Json::String(s.clone()),
        serde_json::Value::Array(a) => Json::Array(a.iter().map(json).collect()),
        serde_json::Value::Object(o) => Json::Object(o.iter().map(|(k, v)| (k.clone(), json(v))).collect()),
    }
}

fn parse(text: &str) -> Json {
    json(&serde_json::from_str(text).unwrap())
}

#[test]
fn accepts_a_correctly_signed_body() {
    let body = br#"{"event_id":"evt_1","type":"payment.updated"}"#;
    let sig = sign(KEY, URL, body);
    assert!(verify_signature(KEY, URL, body, &sig));
}

#[test]
fn rejects_a_tampered_body() {
    let body = br#"{"event_id":"evt_1","type":"payment.updated"}"#;
    let sig = sign(KEY, URL, body);
    let tampered = br#"{"event_id":"evt_1","type":"payment.deleted"}"#;
    assert!(!verify_signature(KEY, URL, tampered, &sig));
}

#[test]
fn rejects_a_signature_for_a_different_url() {
    let body = br#"{"event_id":"evt_1"}"#;
    let sig = sign(KEY, "https://evil.example/api/webhooks/square", body);
    assert!(!verify_signature(KEY, URL, body, &sig));
}

#[test]
fn rejects_a_signature_from_the_wrong_key() {
    let body = br#"{"event_id":"evt_1"}"#;
    let sig = sign("some_other_key", URL, body);
    assert!(!verify_signature(KEY, URL, body, &sig));
}

#[test]
fn rejects_malformed_signatures() {
    let body = br#"{"event_id":"evt_1"}"#;
    assert!(!verify_signature(KEY, URL, body, "not base64 !!!"));
    assert!(!verify_signature(KEY, URL, body, ""));
    assert!(!verify_signature(KEY, URL, body, &BASE64.encode([0u8; 8])));
}

#[test]
fn tolerates_surrounding_whitespace() {
    let body = br#"{"event_id":"evt_1"}"#;
    let sig = sign(KEY, URL, body);
    assert!(verify_signature(KEY, URL, body, &format!("  {sig}\n")));
}

#[test]
fn extracts_payment_event_ids() {
    let v = parse(
        r#"{"event_id":"evt_1","type":"payment.updated",
            "data":{"type":"payment","id":"pay_1","object":{"payment":{"id":"pay_1","order_id":"ord_1"}}}}"#,
    );
    let ids = extract_ids(&v).unwrap();
    assert_eq!(ids.event_id, "evt_1");
    assert_eq!(ids.event_type, "payment.updated");
    assert_eq!(ids.payment_id.as_deref(), Some("pay_1"));
    assert_eq!(ids.order_id.as_deref(), Some("ord_1"));
}

#[test]
fn extracts_the_payment_id_from_a_refund_event() {
    let v = parse(
        r#"{"event_id":"evt_2","type":"refund.updated",
            "data":{"type":"refund","object":{"refund":{"id":"ref_1","payment_id":"pay_9"}}}}"#,
    );
    let ids = extract_ids(&v).unwrap();
    assert_eq!(ids.payment_id.as_deref(), Some("pay_9"));
}

#[test]
fn rejects_an_envelope_with_no_event_id() {
    assert!(extract_ids(&parse(r#"{"type":"payment.updated"}"#)).is_none());
}

#[test]
fn reads_the_order_from_an_order_event() {
    let v = parse(r#"{"event_id":"evt_3","type":"order.updated","data":{"object":{"order":{"id":"ord_7"}}}}"#);
    let ids = extract_ids(&v).unwrap();
    assert_eq!(ids.payment_id, None);
    assert_eq!(ids.order_id.as_deref(), Some("ord_7"));
}

#[test]
fn checks_a_squarespace_hex_signature() {
    let body = br#"{"topic":"order.create"}"#;
    let mut mac = HmacSha256::new_from_slice(b"whsec").unwrap();
    mac.update(body);
    let sig = hex::encode(mac.finalize().into_bytes());
    assert!(verify_squarespace_signature("whsec", body, &sig));
    assert!(!verify_squarespace_signature("other", body, &sig));
    assert!(!verify_squarespace_signature("whsec", body, "zz"));
}

#[test]
fn hex_signatures_read_either_case_and_need_whole_bytes() {
    let body = br#"{"topic":"order.update"}"#;
    let mut mac = HmacSha256::new_from_slice(b"whsec").unwrap();
    mac.update(body);
    let sig = hex::encode(mac.finalize().into_bytes());
    assert!(verify_squarespace_signature("whsec", body, &sig.to_uppercase()));
    assert!(!verify_squarespace_signature("whsec", body, &sig[1..]));
    assert!(!verify_squarespace_signature("whsec", body, &sig[..62]));
}

#[test]
fn a_tag_of_the_wrong_length_never_matches() {
    let body = br#"{"event_id":"evt_1"}"#;
    let mut mac = HmacSha256::new_from_slice(KEY.as_bytes()).unwrap();
    mac.update(URL.as_bytes());
    mac.update(body);
    let tag = mac.finalize().into_bytes();
    assert!(!verify_signature(KEY, URL, body, &BASE64.encode(&tag[..31])));
    let mut longer = tag.to_vec();
    longer.push(0);
    assert!(!verify_signature(KEY, URL, body, &BASE64.encode(&longer)));
}

#[test]
fn an_unauthenticated_delivery_is_answered_before_anything_else() {
    let body = br#"{"event_id":"evt_1","type":"payment.updated"}"#;
    let v = || parse(std::str::from_utf8(body).unwrap());
    let sig = sign(KEY, URL, body);
    assert!(matches!(
        receive_start(None, Some(URL), Some(&sig), body, Some(v()), ""),
        ReceiveStep::Answer(Err(AppError::Unavailable(m))) if m == "square webhook receiver not configured"
    ));
    assert!(matches!(
        receive_start(Some(KEY), Some(URL), None, body, Some(v()), ""),
        ReceiveStep::Answer(Err(AppError::Unauthorized))
    ));
    assert!(matches!(
        receive_start(Some(KEY), Some(URL), Some("bogus"), body, Some(v()), ""),
        ReceiveStep::Answer(Err(AppError::Unauthorized))
    ));
    match receive_start(Some(KEY), Some(URL), Some(&sig), body, Some(v()), "") {
        ReceiveStep::LookUp(ids) => assert_eq!(ids.event_id, "evt_1"),
        other => panic!("expected a lookup, got {other:?}"),
    }
    let bad = b"not json";
    let bad_sig = sign(KEY, URL, bad);
    assert!(matches!(
        receive_start(Some(KEY), Some(URL), Some(&bad_sig), bad, None, "expected value"),
        ReceiveStep::Answer(Err(AppError::BadRequest(m))) if m == "invalid webhook body: expected value"
    ));
    let anon = br#"{"type":"payment.updated"}"#;
    let anon_sig = sign(KEY, URL, anon);
    assert!(matches!(
        receive_start(Some(KEY), Some(URL), Some(&anon_sig), anon, Some(parse(std::str::from_utf8(anon).unwrap())), ""),
        ReceiveStep::Answer(Err(AppError::BadRequest(m))) if m == "webhook body has no event_id/type"
    ));
}

#[test]
fn a_settled_redelivery_is_acknowledged_without_reprocessing() {
    let v = parse(r#"{"event_id":"evt_1","type":"payment.updated","data":{"object":{"payment":{"id":"pay_1"}}}}"#);
    let ids = || extract_ids(&v).unwrap();
    for settled in ["processed", "unmatched", "ignored"] {
        assert!(matches!(receive_seen(ids(), Some(settled)), ReceiveStep::Answer(Ok(()))));
    }
    for again in [None, Some("received"), Some("failed")] {
        match receive_seen(ids(), again) {
            ReceiveStep::Record(i, EventRoute::Fetch(p)) => {
                assert_eq!(i.event_id, "evt_1");
                assert_eq!(p, "pay_1");
            }
            other => panic!("expected a record, got {other:?}"),
        }
    }
}
