use blendbar::error::AppError;
use blendbar::ident::id_simple;
use blendbar::order::may_fulfil;
use blendbar::qr::{checkout_qr, qr_svg, scent_qr};
use blendbar::square::{SquareEnv, SquareError};
use blendbar::webhook::{
    authenticate_square, authenticate_squarespace, order_fetch_failure, payment_fetch_failure, require_ids,
    route_square_event, route_squarespace_event, settled_as, EventIds, EventRoute,
};
use blendbar::squarespace::SyncError;

#[test]
fn fulfilment_needs_payment_first() {
    assert!(matches!(may_fulfil("lead"), Err(AppError::Conflict(_))));
    assert!(may_fulfil("paid").is_ok());
}

#[test]
fn qr_codes_render_as_svg() {
    let svg = qr_svg("https://example.invalid/mock-checkout/abc", 260).unwrap();
    assert!(svg.contains("<svg"));
    assert!(checkout_qr(Some("https://pay.example/x".into())).unwrap().contains("<svg"));
    assert!(matches!(checkout_qr(None), Err(AppError::BadRequest(_))));
    assert!(scent_qr("https://shop", 1).unwrap().contains("<svg"));
    let too_long = "x".repeat(8000);
    assert!(matches!(qr_svg(&too_long, 100), Err(AppError::Internal(m)) if m.starts_with("qr encode failed: ")));
}

#[test]
fn the_receivers_refuse_before_reading() {
    assert!(matches!(authenticate_square(None, Some("u"), Some("s"), b"{}"), Err(AppError::Unavailable(_))));
    assert!(matches!(authenticate_square(Some("k"), Some("u"), None, b"{}"), Err(AppError::Unauthorized)));
    assert!(matches!(authenticate_square(Some("k"), Some("u"), Some("bogus"), b"{}"), Err(AppError::Unauthorized)));
    assert!(matches!(authenticate_squarespace(None, Some("s"), b"{}"), Err(AppError::Unavailable(m)) if m == "webhook receiver not configured"));
    assert!(matches!(require_ids(None), Err(AppError::BadRequest(m)) if m == "webhook body has no event_id/type"));
}

fn ids(event_type: &str, payment: Option<&str>) -> EventIds {
    EventIds { event_id: "e".into(), event_type: event_type.into(), payment_id: payment.map(String::from), order_id: None }
}

#[test]
fn events_are_routed_by_type() {
    assert_eq!(route_square_event(&ids("customer.created", None)), EventRoute::Ignore);
    assert_eq!(route_square_event(&ids("payment.updated", Some("p1"))), EventRoute::Fetch("p1".into()));
    assert_eq!(
        route_square_event(&ids("refund.updated", None)),
        EventRoute::Malformed("payment/refund event without a payment id".into())
    );
    assert_eq!(route_squarespace_event("extension.uninstall", None), EventRoute::Ignore);
    assert_eq!(route_squarespace_event("order.update", Some("o")), EventRoute::Fetch("o".into()));
    assert_eq!(route_squarespace_event("order.create", None), EventRoute::Malformed("order topic without an orderId".into()));
    assert_eq!(settled_as(true), "processed");
    assert_eq!(settled_as(false), "unmatched");
}

#[test]
fn transient_fetch_failures_ask_for_redelivery() {
    assert!(matches!(payment_fetch_failure(&SquareError::Transport("t".into())), Err(AppError::Internal(m)) if m == "get_payment failed: transport error: t"));
    assert!(payment_fetch_failure(&SquareError::Config("c".into())).is_ok());
    assert!(matches!(order_fetch_failure(&SyncError::Transport("t".into())), Err(AppError::Internal(m)) if m == "get_order failed: transport error: t"));
    assert!(order_fetch_failure(&SyncError::Config("c".into())).is_ok());
}

#[test]
fn ids_and_labels() {
    assert_eq!(id_simple(0xABCDEF), "00000000000000000000000000abcdef");
    assert_eq!(SquareEnv::Sandbox.base_url(), "https://connect.squareupsandbox.com");
    assert_eq!(SquareEnv::Production.label(), "production");
}
