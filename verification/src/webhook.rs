//! Inbound webhooks: signature verification and reading the ids out of an
//! event envelope.
//!
//! Square signs `notification_url || raw_body` with HMAC-SHA256 and sends the
//! tag base64-encoded. Verification is the entire security boundary of the
//! receiver, which is public and can mark carts paid.

use vstd::prelude::*;
use base64::Engine;
use hmac::Mac;
use crate::error::AppError;
use crate::json::{as_str, get, get_opt, spec_as_str, spec_get, spec_get_opt, Json};
use crate::order::OrderStatus;
use crate::square::SquareError;
use crate::text::{eq_ignore_ascii_case, eq_ignore_ascii_case_str, has_prefix, push_str, spec_trim, starts_with, str_eq, trim};
use vstd::utf8::encode_utf8;

verus! {

/// The HMAC-SHA256 tag of `message` under `key`.
pub uninterp spec fn hmac_sha256(key: Seq<u8>, message: Seq<u8>) -> Seq<u8>;

/// `Hmac::<Sha256>`: keyed with `key`, fed `prefix` then `body`, and checked in
/// constant time (`Mac::verify_slice`) against `tag`. True exactly when `tag`
/// is the tag of the concatenated message: `verify_slice` refuses a tag of any
/// other length, and HMAC accepts keys of every length. A SHA-256 tag is 32
/// bytes (`OutputSize` of `Sha256`), so only a 32-byte tag can match. That
/// the named tag itself is 32 bytes long is shown only where a tag matched.
#[verifier::external_body]
fn hmac_sha256_matches(key: &[u8], prefix: &[u8], body: &[u8], tag: &[u8]) -> (r: bool)
    ensures
        r == (tag@ == hmac_sha256(key@, prefix@ + body@)),
        r ==> tag@.len() == 32,
{
    let mut mac = match hmac::Hmac::<sha2::Sha256>::new_from_slice(key) {
        Ok(m) => m,
        Err(_) => return false,
    };
    mac.update(prefix);
    mac.update(body);
    mac.verify_slice(tag).is_ok()
}

/// What standard base64 (padded, `+` and `/`) decodes `text` to, if it is
/// valid base64.
pub uninterp spec fn base64_decode(text: Seq<u8>) -> Option<Seq<u8>>;

/// `base64::engine::general_purpose::STANDARD.decode`.
#[verifier::external_body]
fn decode_base64(text: &[u8]) -> (r: Option<Vec<u8>>)
    ensures
        match r {
            Some(v) => base64_decode(text@) == Some(v@),
            None => base64_decode(text@) is None,
        },
{
    match base64::engine::general_purpose::STANDARD.decode(text) {
        Ok(v) => Some(v),
        Err(_) => None,
    }
}

/// The value of one hex digit, either case.
pub open spec fn hex_val(c: u8) -> Option<u8> {
    if 48 <= c <= 57 {
        Some((c - 48) as u8)
    } else if 97 <= c <= 102 {
        Some((c - 97 + 10) as u8)
    } else if 65 <= c <= 70 {
        Some((c - 65 + 10) as u8)
    } else {
        None
    }
}

/// What hex text decodes to, as `hex::decode` reads it: an even number of hex
/// digits, either case, two to a byte, high nibble first. Anything else is
/// refused.
pub open spec fn hex_decode(text: Seq<u8>) -> Option<Seq<u8>> {
    if text.len() % 2 == 0 && forall|i: int| 0 <= i < text.len() ==> (#[trigger] hex_val(text[i])) is Some {
        Some(Seq::new(text.len() / 2, |k: int| (hex_val(text[2 * k]).unwrap() * 16 + hex_val(text[2 * k + 1]).unwrap()) as u8))
    } else {
        None
    }
}

fn hex_digit(c: u8) -> (r: Option<u8>)
    ensures
        r == hex_val(c),
{
    if 48 <= c && c <= 57 {
        Some(c - 48)
    } else if 97 <= c && c <= 102 {
        Some(c - 97 + 10)
    } else if 65 <= c && c <= 70 {
        Some(c - 65 + 10)
    } else {
        None
    }
}

fn decode_hex(text: &[u8]) -> (r: Option<Vec<u8>>)
    ensures
        match r {
            Some(v) => hex_decode(text@) == Some(v@),
            None => hex_decode(text@) is None,
        },
{
    let n = text.len();
    if n % 2 != 0 {
        return None;
    }
    let mut out: Vec<u8> = Vec::new();
    let mut k: usize = 0;
    while k < n / 2
        invariant
            n == text@.len(),
            n % 2 == 0,
            k <= n / 2,
            out@.len() == k,
            forall|i: int| 0 <= i < 2 * k ==> (#[trigger] hex_val(text@[i])) is Some,
            forall|j: int| 0 <= j < k ==> (#[trigger] out@[j]) == (hex_val(text@[2 * j]).unwrap() * 16 + hex_val(
                text@[2 * j + 1],
            ).unwrap()) as u8,
        decreases n / 2 - k,
    {
        let hi = match hex_digit(text[2 * k]) {
            Some(d) => d,
            None => return None,
        };
        let lo = match hex_digit(text[2 * k + 1]) {
            Some(d) => d,
            None => return None,
        };
        proof {
            assert forall|i: int| 0 <= i < 2 * (k + 1) implies (#[trigger] hex_val(text@[i])) is Some by {
                if i == 2 * k || i == 2 * k + 1 {
                } else {
                    assert(i < 2 * k);
                }
            }
        }
        out.push(hi * 16 + lo);
        k = k + 1;
    }
    proof {
        assert(out@ =~= Seq::new(n as nat / 2, |j: int| (hex_val(text@[2 * j]).unwrap() * 16 + hex_val(text@[2 * j + 1]).unwrap()) as u8));
    }
    Some(out)
}

/// A Square signature is valid when the provided value, trimmed, is base64 of
/// the HMAC-SHA256 of `notification_url || body` under the signature key.
pub open spec fn square_signature_valid(key: Seq<char>, url: Seq<char>, body: Seq<u8>, provided: Seq<char>) -> bool {
    match base64_decode(encode_utf8(spec_trim(provided))) {
        Some(tag) => tag == hmac_sha256(encode_utf8(key), encode_utf8(url) + body),
        None => false,
    }
}

/// Verify a Square webhook signature. The comparison is constant-time; a naive
/// `==` on the base64 strings would leak the expected signature.
pub fn verify_signature(signature_key: &str, notification_url: &str, body: &[u8], provided_b64: &str) -> (r: bool)
    ensures
        r == square_signature_valid(signature_key@, notification_url@, body@, provided_b64@),
        r ==> hmac_sha256(encode_utf8(signature_key@), encode_utf8(notification_url@) + body@).len() == 32,
        (base64_decode(encode_utf8(spec_trim(provided_b64@))) matches Some(t) && t.len() != 32) ==> !r,
{
    let trimmed = trim(provided_b64);
    let provided = match decode_base64(trimmed.as_bytes()) {
        Some(p) => p,
        None => return false,
    };
    hmac_sha256_matches(signature_key.as_bytes(), notification_url.as_bytes(), body, provided.as_slice())
}

/// A Squarespace signature is valid when the provided value, trimmed, is hex of
/// the HMAC-SHA256 of the body under the webhook secret.
pub open spec fn squarespace_signature_valid(secret: Seq<char>, body: Seq<u8>, provided: Seq<char>) -> bool {
    match hex_decode(encode_utf8(spec_trim(provided))) {
        Some(tag) => tag == hmac_sha256(encode_utf8(secret), body),
        None => false,
    }
}

/// Verify a Squarespace webhook signature (hex-encoded HMAC-SHA256 of the raw
/// body), in constant time.
pub fn verify_squarespace_signature(secret: &str, body: &[u8], provided_hex: &str) -> (r: bool)
    ensures
        r == squarespace_signature_valid(secret@, body@, provided_hex@),
        (hex_decode(encode_utf8(spec_trim(provided_hex@))) matches Some(t) && t.len() != 32) ==> !r,
{
    let trimmed = trim(provided_hex);
    let provided = match decode_hex(trimmed.as_bytes()) {
        Some(p) => p,
        None => return false,
    };
    let empty: Vec<u8> = Vec::new();
    let r = hmac_sha256_matches(secret.as_bytes(), empty.as_slice(), body, provided.as_slice());
    proof {
        assert(empty@ + body@ =~= body@);
    }
    r
}

/// The ids the receiver cares about in a Square event envelope.
#[derive(Debug)]
pub struct EventIds {
    pub event_id: String,
    pub event_type: String,
    pub payment_id: Option<String>,
    pub order_id: Option<String>,
}

/// Square nests the changed object under `data.object`, keyed by type. A
/// refund carries the id of the payment it reverses, which is the handle the
/// receiver needs.
pub open spec fn spec_payment_id(v: Json) -> Option<Seq<char>> {
    let object = spec_get_opt(spec_get(v, "data"@), "object"@);
    let payment = spec_get_opt(object, "payment"@);
    let refund = spec_get_opt(object, "refund"@);
    let id = match spec_get_opt(payment, "id"@) {
        Some(x) => Some(x),
        None => spec_get_opt(refund, "payment_id"@),
    };
    spec_as_str(id)
}

/// The order: the payment's `order_id`, else `data.object.order.id`.
pub open spec fn spec_order_id(v: Json) -> Option<Seq<char>> {
    let object = spec_get_opt(spec_get(v, "data"@), "object"@);
    let payment = spec_get_opt(object, "payment"@);
    let id = match spec_get_opt(payment, "order_id"@) {
        Some(x) => Some(x),
        None => spec_get_opt(spec_get_opt(object, "order"@), "id"@),
    };
    spec_as_str(id)
}

fn owned(s: Option<&String>) -> (r: Option<String>)
    ensures
        match s {
            Some(x) => r == Some(*x),
            None => r is None,
        },
{
    match s {
        Some(x) => Some(x.clone()),
        None => None,
    }
}

/// The envelope names its event: `event_id` and `type` are both strings.
pub open spec fn has_envelope(v: Json) -> bool {
    spec_as_str(spec_get(v, "event_id"@)) is Some && spec_as_str(spec_get(v, "type"@)) is Some
}

/// `ids` are the ids the envelope `v` carries.
pub open spec fn read_ids(v: Json, ids: EventIds) -> bool {
    &&& spec_as_str(spec_get(v, "event_id"@)) == Some(ids.event_id@)
    &&& spec_as_str(spec_get(v, "type"@)) == Some(ids.event_type@)
    &&& match spec_payment_id(v) {
        Some(p) => ids.payment_id matches Some(x) && x@ == p,
        None => ids.payment_id is None,
    }
    &&& match spec_order_id(v) {
        Some(o) => ids.order_id matches Some(x) && x@ == o,
        None => ids.order_id is None,
    }
}

/// Pull the ids out of an event envelope; nothing when it has no `event_id` or
/// no `type`.
pub fn extract_ids(v: &Json) -> (r: Option<EventIds>)
    ensures
        has_envelope(*v) ==> (r matches Some(ids) && read_ids(*v, ids)),
        !has_envelope(*v) ==> r is None,
{
    let event_id = match as_str(get(v, "event_id")) {
        Some(s) => s.clone(),
        None => return None,
    };
    let event_type = match as_str(get(v, "type")) {
        Some(s) => s.clone(),
        None => return None,
    };
    let object = get_opt(get(v, "data"), "object");
    let payment = get_opt(object, "payment");
    let refund = get_opt(object, "refund");
    let pid = match get_opt(payment, "id") {
        Some(x) => Some(x),
        None => get_opt(refund, "payment_id"),
    };
    let oid = match get_opt(payment, "order_id") {
        Some(x) => Some(x),
        None => get_opt(get_opt(object, "order"), "id"),
    };
    Some(EventIds { event_id, event_type, payment_id: owned(as_str(pid)), order_id: owned(as_str(oid)) })
}

/// An event already handled to a terminal state is acknowledged again without
/// reprocessing (Square redelivers until it gets a 2xx). A `received` or
/// `failed` one is let through to be retried.
pub open spec fn spec_already_settled(status: Option<Seq<char>>) -> bool {
    match status {
        Some(s) => s == "processed"@ || s == "unmatched"@ || s == "ignored"@,
        None => false,
    }
}

pub fn already_settled(status: Option<&str>) -> (r: bool)
    ensures
        r == spec_already_settled(match status { Some(s) => Some(s@), None => None }),
{
    match status {
        Some(s) => str_eq(s, "processed") || str_eq(s, "unmatched") || str_eq(s, "ignored"),
        None => false,
    }
}

/// Only payment and refund events move money; everything else is acknowledged
/// and filed.
pub fn moves_money(event_type: &str) -> (r: bool)
    ensures
        r == (has_prefix(event_type@, "payment."@) || has_prefix(event_type@, "refund."@)),
{
    starts_with(event_type, "payment.") || starts_with(event_type, "refund.")
}

/// The answer when re-fetching the payment failed: a transient failure gets a
/// 500 so that Square redelivers; anything else is acknowledged, since
/// retrying will not help.
pub fn payment_fetch_failure(err: &SquareError) -> (r: Result<(), AppError>)
    ensures
        err.spec_retryable() ==> (r matches Err(e) && e is Internal && e.message() == "get_payment failed: "@
            + err.spec_message()),
        !err.spec_retryable() ==> r is Ok,
{
    if err.retryable() {
        let mut m = String::new();
        push_str(&mut m, "get_payment failed: ");
        let d = err.message();
        push_str(&mut m, d.as_str());
        Err(AppError::Internal(m))
    } else {
        Ok(())
    }
}

/// Authoritative order state fetched back from Squarespace.
#[derive(Debug)]
pub struct RemoteOrder {
    /// Squarespace fulfilment status, e.g. "PENDING" / "FULFILLED" / "CANCELED".
    pub fulfillment_status: String,
    pub paid: bool,
    pub grand_total: Option<crate::money::Amount>,
}

/// Fulfilled wins, then paid; anything else is still a lead.
pub fn map_status(remote: &RemoteOrder) -> (r: OrderStatus)
    ensures
        r == if eq_ignore_ascii_case(remote.fulfillment_status@, "FULFILLED"@) {
            OrderStatus::Fulfilled
        } else if remote.paid {
            OrderStatus::Paid
        } else {
            OrderStatus::Lead
        },
{
    if eq_ignore_ascii_case_str(remote.fulfillment_status.as_str(), "FULFILLED") {
        OrderStatus::Fulfilled
    } else if remote.paid {
        OrderStatus::Paid
    } else {
        OrderStatus::Lead
    }
}

/// Only `order*` topics reconcile an order.
pub fn is_order_topic(topic: &str) -> (r: bool)
    ensures
        r == has_prefix(topic@, "order"@),
{
    starts_with(topic, "order")
}

/// A Square delivery is acted on only when the receiver is configured (both
/// the signature key and the notification URL), the signature header is
/// present, and the signature verifies.
pub fn authenticate_square(key: Option<&str>, url: Option<&str>, signature: Option<&str>, body: &[u8]) -> (r: Result<(), AppError>)
    ensures
        match (key, url) {
            (Some(k), Some(u)) => match signature {
                Some(sig) => if square_signature_valid(k@, u@, body@, sig@) {
                    r is Ok
                } else {
                    r matches Err(AppError::Unauthorized)
                },
                None => r matches Err(AppError::Unauthorized),
            },
            _ => r matches Err(AppError::Unavailable(m)) && m@ == "square webhook receiver not configured"@,
        },
{
    let (k, u) = match (key, url) {
        (Some(k), Some(u)) => (k, u),
        _ => return Err(AppError::Unavailable(String::from_str("square webhook receiver not configured"))),
    };
    let sig = match signature {
        Some(s) => s,
        None => return Err(AppError::Unauthorized),
    };
    if !verify_signature(k, u, body, sig) {
        return Err(AppError::Unauthorized);
    }
    Ok(())
}

/// The same gate for Squarespace, whose signature covers the body alone.
pub fn authenticate_squarespace(secret: Option<&str>, signature: Option<&str>, body: &[u8]) -> (r: Result<(), AppError>)
    ensures
        match secret {
            Some(s) => match signature {
                Some(sig) => if squarespace_signature_valid(s@, body@, sig@) {
                    r is Ok
                } else {
                    r matches Err(AppError::Unauthorized)
                },
                None => r matches Err(AppError::Unauthorized),
            },
            None => r matches Err(AppError::Unavailable(m)) && m@ == "webhook receiver not configured"@,
        },
{
    let s = match secret {
        Some(s) => s,
        None => return Err(AppError::Unavailable(String::from_str("webhook receiver not configured"))),
    };
    let sig = match signature {
        Some(x) => x,
        None => return Err(AppError::Unauthorized),
    };
    if !verify_squarespace_signature(s, body, sig) {
        return Err(AppError::Unauthorized);
    }
    Ok(())
}

/// An envelope without an event id or type is refused.
pub fn require_ids(ids: Option<EventIds>) -> (r: Result<EventIds, AppError>)
    ensures
        match ids {
            Some(i) => r == Ok::<EventIds, AppError>(i),
            None => r matches Err(AppError::BadRequest(m)) && m@ == "webhook body has no event_id/type"@,
        },
{
    match ids {
        Some(i) => Ok(i),
        None => Err(AppError::BadRequest(String::from_str("webhook body has no event_id/type"))),
    }
}

/// What the receiver does with an event once it is recorded.
#[derive(Debug, PartialEq, Eq)]
pub enum EventRoute {
    /// Acknowledge and file it as ignored.
    Ignore,
    /// Acknowledge and file it as failed, with this reason: malformed rather
    /// than transient, so retrying will not help.
    Malformed(String),
    /// Fetch the authoritative state of this id and apply it.
    Fetch(String),
}

/// Square: only payment and refund events move money, and they must name a
/// payment.
pub open spec fn square_route(ids: EventIds, r: EventRoute) -> bool {
    &&& !(has_prefix(ids.event_type@, "payment."@) || has_prefix(ids.event_type@, "refund."@)) ==> r is Ignore
    &&& (has_prefix(ids.event_type@, "payment."@) || has_prefix(ids.event_type@, "refund."@)) ==> match ids.payment_id {
        Some(p) => r matches EventRoute::Fetch(x) && x@ == p@,
        None => r matches EventRoute::Malformed(m) && m@ == "payment/refund event without a payment id"@,
    }
}

pub fn route_square_event(ids: &EventIds) -> (r: EventRoute)
    ensures
        square_route(*ids, r),
{
    if !moves_money(ids.event_type.as_str()) {
        return EventRoute::Ignore;
    }
    match &ids.payment_id {
        Some(p) => EventRoute::Fetch(p.clone()),
        None => EventRoute::Malformed(String::from_str("payment/refund event without a payment id")),
    }
}

/// Squarespace: only `order*` topics reconcile, and they must name an order.
pub fn route_squarespace_event(topic: &str, order_id: Option<&str>) -> (r: EventRoute)
    ensures
        !has_prefix(topic@, "order"@) ==> r is Ignore,
        has_prefix(topic@, "order"@) ==> match order_id {
            Some(o) => r matches EventRoute::Fetch(x) && x@ == o@,
            None => r matches EventRoute::Malformed(m) && m@ == "order topic without an orderId"@,
        },
{
    if !is_order_topic(topic) {
        return EventRoute::Ignore;
    }
    match order_id {
        Some(o) => EventRoute::Fetch(String::from_str(o)),
        None => EventRoute::Malformed(String::from_str("order topic without an orderId")),
    }
}

/// How an applied event is filed: processed when it matched something here,
/// unmatched when it did not (a sale rung up directly in the POS).
pub fn settled_as(matched: bool) -> (r: &'static str)
    ensures
        matched ==> r@ == "processed"@,
        !matched ==> r@ == "unmatched"@,
{
    if matched { "processed" } else { "unmatched" }
}

/// The answer when re-fetching an order failed: transient gets a 500 so
/// Squarespace redelivers; anything else is acknowledged.
pub fn order_fetch_failure(err: &crate::squarespace::SyncError) -> (r: Result<(), AppError>)
    ensures
        err.spec_retryable() ==> (r matches Err(e) && e is Internal && e.message() == "get_order failed: "@
            + err.spec_message()),
        !err.spec_retryable() ==> r is Ok,
{
    if err.retryable() {
        let mut m = String::new();
        push_str(&mut m, "get_order failed: ");
        let d = err.message();
        push_str(&mut m, d.as_str());
        Err(AppError::Internal(m))
    } else {
        Ok(())
    }
}


/// The receiver's next move on a Square delivery.
#[derive(Debug)]
pub enum ReceiveStep {
    /// Answer now (`Ok` is a 200). Nothing is recorded and nothing is fetched.
    Answer(Result<(), AppError>),
    /// Read what became of this event before, then call [`receive_seen`].
    LookUp(EventIds),
    /// Record the event (so a crash mid-processing leaves a trail), then follow
    /// the route: file an ignored or malformed event and answer 200, or fetch
    /// the payment.
    Record(EventIds, EventRoute),
}

/// The delivery carries a signature that verifies under the configured key
/// and notification URL.
pub open spec fn square_authenticated(key: Option<&str>, url: Option<&str>, signature: Option<&str>, body: Seq<u8>) -> bool {
    match (key, url, signature) {
        (Some(k), Some(u), Some(sig)) => square_signature_valid(k@, u@, body, sig@),
        _ => false,
    }
}

/// The first step on a delivery: authenticate, then read the envelope.
/// `payload` is the body parsed as JSON, or nothing when it is not JSON, with
/// the parser's complaint in `parse_error`. A delivery that does not
/// authenticate is answered at once, before its body is even looked at: it is
/// never recorded and nothing is fetched for it.
pub fn receive_start(
    key: Option<&str>,
    url: Option<&str>,
    signature: Option<&str>,
    body: &[u8],
    payload: Option<Json>,
    parse_error: &str,
) -> (r: ReceiveStep)
    ensures
        (key is None || url is None) ==> (r matches ReceiveStep::Answer(Err(AppError::Unavailable(m)))
            && m@ == "square webhook receiver not configured"@),
        (key is Some && url is Some && !square_authenticated(key, url, signature, body@))
            ==> (r matches ReceiveStep::Answer(Err(AppError::Unauthorized))),
        square_authenticated(key, url, signature, body@) ==> match payload {
            None => r matches ReceiveStep::Answer(Err(AppError::BadRequest(m))) && m@ == "invalid webhook body: "@
                + parse_error@,
            Some(v) => if has_envelope(v) {
                r matches ReceiveStep::LookUp(ids) && read_ids(v, ids)
            } else {
                r matches ReceiveStep::Answer(Err(AppError::BadRequest(m))) && m@ == "webhook body has no event_id/type"@
            },
        },
{
    match authenticate_square(key, url, signature, body) {
        Err(e) => return ReceiveStep::Answer(Err(e)),
        Ok(()) => {},
    }
    let v = match payload {
        Some(v) => v,
        None => {
            let mut m = String::new();
            push_str(&mut m, "invalid webhook body: ");
            push_str(&mut m, parse_error);
            return ReceiveStep::Answer(Err(AppError::BadRequest(m)));
        },
    };
    match require_ids(extract_ids(&v)) {
        Ok(ids) => ReceiveStep::LookUp(ids),
        Err(e) => ReceiveStep::Answer(Err(e)),
    }
}

/// The step after the lookup: `status` is what the event was filed as before,
/// if it was seen. An event already settled is acknowledged again without
/// being recorded or fetched; any other is recorded and routed.
pub fn receive_seen(ids: EventIds, status: Option<&str>) -> (r: ReceiveStep)
    ensures
        spec_already_settled(match status { Some(s) => Some(s@), None => None }) ==> (r matches ReceiveStep::Answer(Ok(()))),
        !spec_already_settled(match status { Some(s) => Some(s@), None => None }) ==> (r matches ReceiveStep::Record(i, route)
            && i == ids && square_route(ids, route)),
{
    if already_settled(status) {
        return ReceiveStep::Answer(Ok(()));
    }
    let route = route_square_event(&ids);
    ReceiveStep::Record(ids, route)
}

} // verus!
