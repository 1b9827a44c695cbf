use blendbar::json::Json;
use blendbar::square::SquareError;
use blendbar::square_api::{
    api_failure, checkout_handle, customer_id_from, next_page, page_payments, parse_payment, payments_path, summarize_errors,
    urlencoding, void_outcome, PageStep,
};

fn json(v: &serde_json::Value) -> Json {
    match v {
        serde_json::Value::Null => Json::Null,
        serde_json::Value::Bool(b) => Json::Bool(*b),
        serde_json::Value::Number(n) => Json::Number(n.as_i64()),
        serde_json::Value::String(s) => Json::String(s.clone()),
        serde_json::Value::Array(a) => Json::Array(a.iter().map(json).collect()),
        serde_json::Value::Object(o) => Json::Object(o.iter().map(|(k, v)| (k.clone(), json(v))).collect()),
    }
}

fn parse(text: &str) -> Option<Json> {
    serde_json::from_str::<serde_json::Value>(text).ok().map(|v| json(&v))
}

#[test]
fn urlencodes_timestamp_reserved_characters() {
    assert_eq!(urlencoding("2026-07-27T10:00:00+00:00"), "2026-07-27T10%3A00%3A00%2B00%3A00");
    assert_eq!(urlencoding("abc-123_x.y~z"), "abc-123_x.y~z");
}

#[test]
fn summarizes_square_error_envelopes() {
    let body = r#"{"errors":[{"category":"INVALID_REQUEST_ERROR","code":"NOT_FOUND","detail":"Location not found."}]}"#;
    assert_eq!(summarize_errors(body, parse(body).as_ref()), "NOT_FOUND: Location not found.");
}

#[test]
fn falls_back_to_raw_body_when_unrecognized() {
    assert_eq!(summarize_errors("gateway timeout", parse("gateway timeout").as_ref()), "gateway timeout");
}

#[test]
fn parses_a_payment() {
    let v = parse(
        r#"{"id":"pay_123","order_id":"ord_456","status":"COMPLETED",
            "amount_money":{"amount":6000,"currency":"USD"},
            "refunded_money":{"amount":500,"currency":"USD"},
            "created_at":"2026-07-27T10:00:00Z"}"#,
    )
    .unwrap();
    let p = parse_payment(&v, "").unwrap();
    assert_eq!(p.payment_id, "pay_123");
    assert_eq!(p.square_order_id.as_deref(), Some("ord_456"));
    assert_eq!(p.amount_cents, 6000);
    assert_eq!(p.refunded_cents, 500);
    assert!(p.is_completed());
    assert!(p.is_refunded());
}

#[test]
fn parses_a_payment_with_no_refund_block() {
    let v = parse(
        r#"{"id":"pay_1","status":"COMPLETED","amount_money":{"amount":100,"currency":"USD"},
            "created_at":"2026-07-27T10:00:00Z"}"#,
    )
    .unwrap();
    let p = parse_payment(&v, "").unwrap();
    assert_eq!(p.refunded_cents, 0);
    assert!(!p.is_refunded());
}

#[test]
fn reads_the_payment_timestamp() {
    let v = parse(r#"{"id":"pay_1","created_at":"1970-01-01T00:00:01Z"}"#).unwrap();
    let p = parse_payment(&v, "").unwrap();
    assert_eq!(p.created_at, 1_000_000);
    assert_eq!(p.status, "UNKNOWN");
    assert_eq!(p.currency, "USD");
}

#[test]
fn a_payment_without_an_id_is_refused() {
    let text = r#"{"status":"COMPLETED"}"#;
    let v = parse(text).unwrap();
    assert!(matches!(parse_payment(&v, text), Err(SquareError::Config(m)) if m == r#"payment has no id: {"status":"COMPLETED"}"#));
}

#[test]
fn a_page_with_an_id_less_payment_quotes_the_first_one() {
    let v = parse(r#"{"payments":[{"id":"p1"},{"status":"A"},{"status":"B"}]}"#).unwrap();
    let rendered = vec!["{p1}".to_string(), "{A}".to_string(), "{B}".to_string()];
    let mut out = Vec::new();
    assert!(matches!(page_payments(&v, &rendered, &mut out), Err(SquareError::Config(m)) if m == "payment has no id: {A}"));
    let ok = parse(r#"{"payments":[{"id":"p1"},{"id":"p2"}]}"#).unwrap();
    let mut out = Vec::new();
    assert!(page_payments(&ok, &vec![String::new(), String::new()], &mut out).is_ok());
    assert_eq!(out.len(), 2);
    assert_eq!(out[1].payment_id, "p2");
}

#[test]
fn a_payment_link_answer_is_read_or_quoted() {
    let v = parse(r#"{"payment_link":{"id":"L1","order_id":"O1","url":"https://pay/x"}}"#).unwrap();
    let h = checkout_handle(&v, "resp", "link").unwrap();
    assert_eq!((h.payment_link_id.as_str(), h.square_order_id.as_str(), h.url.as_str()), ("L1", "O1", "https://pay/x"));
    let none = parse(r#"{"errors":[]}"#).unwrap();
    assert!(matches!(checkout_handle(&none, r#"{"errors":[]}"#, ""), Err(SquareError::Config(m)) if m == r#"no payment_link in response: {"errors":[]}"#));
    let no_url = parse(r#"{"payment_link":{"id":"L1","order_id":"O1"}}"#).unwrap();
    assert!(matches!(checkout_handle(&no_url, "resp", r#"{"id":"L1","order_id":"O1"}"#), Err(SquareError::Config(m)) if m == r#"payment_link has no `url`: {"id":"L1","order_id":"O1"}"#));
}

#[test]
fn the_customer_id_comes_from_the_answer_or_the_search() {
    let v = parse(r#"{"customer":{"id":"C9"}}"#).unwrap();
    assert_eq!(customer_id_from(&v, None, "").unwrap(), "C9");
    let empty = parse("{}").unwrap();
    assert_eq!(customer_id_from(&empty, Some("C1".into()), "{}").unwrap(), "C1");
    assert!(matches!(customer_id_from(&empty, None, "{}"), Err(SquareError::Config(m)) if m == "no customer id in response: {}"));
}

#[test]
fn classifies_failures_by_status() {
    assert!(matches!(api_failure(503, "down", None), SquareError::Api { status: 503, retryable: true, .. }));
    assert!(matches!(api_failure(429, "slow", None), SquareError::Api { retryable: true, .. }));
    assert!(matches!(api_failure(400, "bad", None), SquareError::Api { retryable: false, .. }));
}

#[test]
fn voiding_a_gone_link_succeeds() {
    let gone = SquareError::Api { status: 404, body: "gone".into(), retryable: false };
    assert!(void_outcome(Err(gone)).is_ok());
    let other = SquareError::Api { status: 500, body: "boom".into(), retryable: true };
    assert!(void_outcome(Err(other)).is_err());
}

#[test]
fn pagination_stops_at_the_cap() {
    let more = parse(r#"{"cursor":"c2"}"#).unwrap();
    assert!(matches!(next_page(0, &more), PageStep::Next(c) if c == "c2"));
    assert!(matches!(next_page(99, &more), PageStep::TooManyPages));
    let done = parse(r#"{"payments":[]}"#).unwrap();
    assert!(matches!(next_page(5, &done), PageStep::Done));
}

#[test]
fn builds_an_encoded_payments_path() {
    assert_eq!(
        payments_path("a+b", "c", "L1", Some("x/y")),
        "/v2/payments?begin_time=a%2Bb&end_time=c&location_id=L1&limit=100&cursor=x%2Fy"
    );
}
