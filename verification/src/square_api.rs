//! What the live Square client decides, as opposed to what it sends: query
//! encoding, reading payments and error envelopes back out of Square's JSON,
//! classifying failures, and walking a paginated listing.

use vstd::prelude::*;
use crate::json::{as_array, as_i64, as_str, get, get_opt, opt_val, spec_as_array, spec_as_i64, spec_as_str, spec_get, spec_get_opt, Json};
use crate::money::DEFAULT_CURRENCY;
use crate::square::{CheckoutHandle, CheckoutPush, RemotePayment, SquareEnv, SquareError};
use crate::text::{digit_char, push_char, push_str};

verus! {

/// Guard against an unbounded pagination loop if a cursor ever fails to advance.
/// 100 pages x 100 payments is far more than a season of stand sales.
pub const MAX_PAGES: usize = 100;

/// Bytes that travel through a query string as themselves.
pub open spec fn unreserved(b: u8) -> bool {
    (65 <= b && b <= 90) || (97 <= b && b <= 122) || (48 <= b && b <= 57) || b == 45 || b == 95 || b == 46
        || b == 126
}

/// Upper-case hexadecimal digit.
pub open spec fn hex_upper(d: nat) -> char {
    if d < 10 {
        digit_char(d)
    } else if d == 10 {
        'A'
    } else if d == 11 {
        'B'
    } else if d == 12 {
        'C'
    } else if d == 13 {
        'D'
    } else if d == 14 {
        'E'
    } else {
        'F'
    }
}

/// Percent-encoding of a byte string: unreserved bytes as themselves, every
/// other byte as `%XX`.
pub open spec fn url_encode(bytes: Seq<u8>) -> Seq<char>
    decreases bytes.len(),
{
    if bytes.len() == 0 {
        seq![]
    } else {
        let b = bytes.last();
        let prev = url_encode(bytes.drop_last());
        if unreserved(b) {
            prev.push(b as char)
        } else {
            prev + seq!['%', hex_upper((b / 16) as nat), hex_upper((b % 16) as nat)]
        }
    }
}

/// A character that reads as itself in a query string: an unreserved ASCII
/// character, or the `%` of an escape.
pub open spec fn query_safe(c: char) -> bool {
    ('A' <= c && c <= 'Z') || ('a' <= c && c <= 'z') || ('0' <= c && c <= '9') || c == '-' || c == '_' || c == '.'
        || c == '~' || c == '%'
}

/// Encoded text is safe to splice into a query: no `+` (which a server reads
/// as a space), no `&`, `=` or space survives encoding.
pub proof fn lemma_url_encode_query_safe(bytes: Seq<u8>)
    ensures
        forall|i: int| 0 <= i < url_encode(bytes).len() ==> query_safe(#[trigger] url_encode(bytes)[i]),
    decreases bytes.len(),
{
    if bytes.len() > 0 {
        let prev = url_encode(bytes.drop_last());
        lemma_url_encode_query_safe(bytes.drop_last());
        let b = bytes.last();
        let e = url_encode(bytes);
        if unreserved(b) {
            assert(e == prev.push(b as char));
            assert(query_safe(b as char));
            assert forall|i: int| 0 <= i < e.len() implies query_safe(#[trigger] e[i]) by {
                if i < prev.len() {
                    assert(e[i] == prev[i]);
                }
            }
        } else {
            let tail = seq!['%', hex_upper((b / 16) as nat), hex_upper((b % 16) as nat)];
            assert(e == prev + tail);
            assert forall|i: int| 0 <= i < e.len() implies query_safe(#[trigger] e[i]) by {
                if i < prev.len() {
                    assert(e[i] == prev[i]);
                } else {
                    assert(e[i] == tail[i - prev.len()]);
                }
            }
        }
    }
}

fn hex_digit_upper(d: u8) -> (c: char)
    requires
        d < 16,
    ensures
        c == hex_upper(d as nat),
{
    if d < 10 {
        crate::text::digit(d as u64)
    } else if d == 10 {
        'A'
    } else if d == 11 {
        'B'
    } else if d == 12 {
        'C'
    } else if d == 13 {
        'D'
    } else if d == 14 {
        'E'
    } else {
        'F'
    }
}

/// Minimal percent-encoding for query values (timestamps contain `+` and `:`,
/// cursors are opaque base64-ish blobs).
pub fn urlencoding(s: &str) -> (r: String)
    ensures
        r@ == url_encode(vstd::utf8::encode_utf8(s@)),
{
    let bytes = s.as_bytes();
    let mut out = String::new();
    let mut i: usize = 0;
    while i < bytes.len()
        invariant
            i <= bytes@.len(),
            bytes@ == vstd::utf8::encode_utf8(s@),
            out@ == url_encode(bytes@.take(i as int)),
        decreases bytes@.len() - i,
    {
        let b = bytes[i];
        proof {
            assert(bytes@.take(i + 1).drop_last() =~= bytes@.take(i as int));
        }
        if (65 <= b && b <= 90) || (97 <= b && b <= 122) || (48 <= b && b <= 57) || b == 45 || b == 95
            || b == 46 || b == 126 {
            push_char(&mut out, b as char);
        } else {
            let ghost before = out@;
            push_char(&mut out, '%');
            push_char(&mut out, hex_digit_upper(b / 16));
            push_char(&mut out, hex_digit_upper(b % 16));
            proof {
                assert(out@ =~= before + seq!['%', hex_upper((b / 16) as nat), hex_upper((b % 16) as nat)]);
            }
        }
        i = i + 1;
    }
    proof {
        assert(bytes@.take(bytes@.len() as int) =~= bytes@);
    }
    out
}

/// The amount of a Square money object `{"amount": .., "currency": ..}`, zero
/// when absent.
pub open spec fn spec_money_cents(v: Option<Json>) -> i64 {
    match spec_as_i64(spec_get_opt(v, "amount"@)) {
        Some(n) => n,
        None => 0,
    }
}

/// The currency of a Square money object, USD when absent.
pub open spec fn spec_money_currency(v: Option<Json>) -> Seq<char> {
    match spec_as_str(spec_get_opt(v, "currency"@)) {
        Some(c) => c,
        None => "USD"@,
    }
}

pub fn money_cents(v: Option<&Json>) -> (r: i64)
    ensures
        r == spec_money_cents(opt_val(v)),
{
    match as_i64(get_opt(v, "amount")) {
        Some(n) => n,
        None => 0,
    }
}

pub fn money_currency(v: Option<&Json>) -> (r: String)
    ensures
        r@ == spec_money_currency(opt_val(v)),
{
    match as_str(get_opt(v, "currency")) {
        Some(c) => c.clone(),
        None => String::from_str(DEFAULT_CURRENCY),
    }
}

/// What Square's clock says a payment was created at, when it says so legibly.
pub uninterp spec fn rfc3339_micros(text: Seq<char>) -> Option<i64>;

/// `DateTime::parse_from_rfc3339`, read back as microseconds since the epoch.
#[verifier::external_body]
fn parse_rfc3339_micros(text: &str) -> (r: Option<i64>)
    ensures
        r == rfc3339_micros(text@),
{
    match chrono::DateTime::parse_from_rfc3339(text) {
        Ok(dt) => Some(dt.timestamp_micros()),
        Err(_) => None,
    }
}

/// `Utc::now()` in microseconds since the epoch. Nothing is promised of the
/// value: it is whatever the machine's clock reads.
#[verifier::external_body]
pub(crate) fn now_micros() -> (r: i64) {
    chrono::Utc::now().timestamp_micros()
}

fn clone_opt_str(s: Option<&String>) -> (r: Option<String>)
    ensures
        match s {
            Some(x) => r == Some(*x),
            None => r is None,
        },
{
    match s {
        Some(x) => Some(x.clone()),
        None => None,
    }
}

/// `pay` is what reading the payment object `p` gives: every field as Square
/// sent it, an absent status as `UNKNOWN`, absent money as zero dollars, and
/// the creation time when it is legible.
pub open spec fn read_as(pay: RemotePayment, p: Json) -> bool {
    &&& spec_as_str(spec_get(p, "id"@)) == Some(pay.payment_id@)
    &&& match spec_as_str(spec_get(p, "order_id"@)) {
        Some(o) => pay.square_order_id matches Some(x) && x@ == o,
        None => pay.square_order_id is None,
    }
    &&& pay.status@ == match spec_as_str(spec_get(p, "status"@)) {
        Some(st) => st,
        None => "UNKNOWN"@,
    }
    &&& pay.amount_cents == spec_money_cents(spec_get(p, "amount_money"@))
    &&& pay.currency@ == spec_money_currency(spec_get(p, "amount_money"@))
    &&& pay.refunded_cents == spec_money_cents(spec_get(p, "refunded_money"@))
    &&& match spec_as_str(spec_get(p, "created_at"@)) {
        Some(t) => match rfc3339_micros(t) {
            Some(us) => pay.created_at == us,
            None => true,
        },
        None => true,
    }
}

/// Read a payment object. Fails only when it carries no id, quoting the
/// object (`rendered` is its JSON text); a missing or illegible `created_at`
/// reads as the current time.
pub fn parse_payment(p: &Json, rendered: &str) -> (r: Result<RemotePayment, SquareError>)
    ensures
        match spec_as_str(spec_get(*p, "id"@)) {
            None => r matches Err(SquareError::Config(m)) && m@ == "payment has no id: "@ + rendered@,
            Some(id) => r matches Ok(pay) && read_as(pay, *p),
        },
{
    let payment_id = match as_str(get(p, "id")) {
        Some(id) => id.clone(),
        None => return Err(config_error_about("payment has no id: ", rendered)),
    };
    let created_at = match as_str(get(p, "created_at")) {
        Some(t) => match parse_rfc3339_micros(t.as_str()) {
            Some(us) => us,
            None => now_micros(),
        },
        None => now_micros(),
    };
    let status = match as_str(get(p, "status")) {
        Some(s) => s.clone(),
        None => String::from_str("UNKNOWN"),
    };
    Ok(RemotePayment {
        payment_id,
        square_order_id: clone_opt_str(as_str(get(p, "order_id"))),
        status,
        amount_cents: money_cents(get(p, "amount_money")),
        currency: money_currency(get(p, "amount_money")),
        created_at,
        refunded_cents: money_cents(get(p, "refunded_money")),
    })
}

/// `code: detail` for one entry of Square's `errors` array.
pub open spec fn error_line(e: Json) -> Seq<char> {
    let code = match spec_as_str(spec_get(e, "code"@)) {
        Some(c) => c,
        None => "UNKNOWN"@,
    };
    let detail = match spec_as_str(spec_get(e, "detail"@)) {
        Some(d) => d,
        None => "(no detail)"@,
    };
    code + ": "@ + detail
}

/// The lines of `errors`, joined by `; `.
pub open spec fn error_lines(errors: Seq<Json>) -> Seq<char>
    decreases errors.len(),
{
    if errors.len() == 0 {
        seq![]
    } else if errors.len() == 1 {
        error_line(errors[0])
    } else {
        error_lines(errors.drop_last()) + "; "@ + error_line(errors.last())
    }
}

/// Square returns `{"errors":[{"category","code","detail"}]}`; the detail lines
/// are what the admin panel shows. Anything not shaped that way — including a
/// body that is not JSON at all — is passed through as it came.
pub open spec fn spec_summarize_errors(text: Seq<char>, parsed: Option<Json>) -> Seq<char> {
    match parsed {
        None => text,
        Some(v) => match spec_as_array(spec_get(v, "errors"@)) {
            None => text,
            Some(errors) => if errors.len() == 0 { text } else { error_lines(errors) },
        },
    }
}

/// Pull `errors[].detail` out of a Square error envelope, falling back to the
/// raw body. `parsed` is the body read as JSON, nothing when it is not JSON.
pub fn summarize_errors(text: &str, parsed: Option<&Json>) -> (r: String)
    ensures
        r@ == spec_summarize_errors(text@, opt_val(parsed)),
{
    let v = match parsed {
        Some(v) => v,
        None => return String::from_str(text),
    };
    let errors = match as_array(get(v, "errors")) {
        Some(e) => e,
        None => return String::from_str(text),
    };
    if errors.len() == 0 {
        return String::from_str(text);
    }
    let mut out = String::new();
    let mut i: usize = 0;
    while i < errors.len()
        invariant
            i <= errors@.len(),
            errors@.len() > 0,
            out@ == error_lines(errors@.take(i as int)),
        decreases errors@.len() - i,
    {
        let e = &errors[i];
        proof {
            assert(errors@.take(i + 1).drop_last() =~= errors@.take(i as int));
            assert(errors@.take(i + 1).last() == errors@[i as int]);
        }
        if i > 0 {
            push_str(&mut out, "; ");
        }
        let ghost before = out@;
        match as_str(get(e, "code")) {
            Some(c) => push_str(&mut out, c.as_str()),
            None => push_str(&mut out, "UNKNOWN"),
        }
        push_str(&mut out, ": ");
        match as_str(get(e, "detail")) {
            Some(d) => push_str(&mut out, d.as_str()),
            None => push_str(&mut out, "(no detail)"),
        }
        proof {
            if i == 0 {
                assert(errors@.take(1) =~= seq![errors@[0]]);
                assert(out@ =~= error_line(errors@[0]));
            } else {
                assert(out@ =~= error_lines(errors@.take(i as int)) + "; "@ + error_line(errors@[i as int]));
            }
        }
        i = i + 1;
    }
    proof {
        assert(errors@.take(errors@.len() as int) =~= errors@);
    }
    out
}

/// 5xx and 429 are transient. Everything else is our fault (bad token, bad
/// location, malformed body) and will fail identically on retry.
pub open spec fn spec_transient_status(status: u16) -> bool {
    (500 <= status && status <= 599) || status == 429
}

/// The error for an unsuccessful answer: its status, the summarized body, and
/// whether retrying can help.
pub fn api_failure(status: u16, text: &str, parsed: Option<&Json>) -> (e: SquareError)
    ensures
        e matches SquareError::Api { status: s, body, retryable } && s == status && body@
            == spec_summarize_errors(text@, opt_val(parsed)) && retryable == spec_transient_status(status),
{
    let retryable = (500 <= status && status <= 599) || status == 429;
    SquareError::Api { status, body: summarize_errors(text, parsed), retryable }
}

/// Deleting a payment link that is already gone is the desired end state, so a
/// 404 is success — otherwise a retried cancel would fail forever.
pub fn void_outcome(result: Result<(), SquareError>) -> (r: Result<(), SquareError>)
    ensures
        match result {
            Ok(()) => r is Ok,
            Err(SquareError::Api { status, .. }) => if status == 404 { r is Ok } else { r == result },
            Err(_) => r == result,
        },
{
    match result {
        Ok(()) => Ok(()),
        Err(SquareError::Api { status: 404, .. }) => Ok(()),
        Err(e) => Err(e),
    }
}

/// A Square request can only be built for a cart with lines in it.
pub fn refuse_empty_checkout(push: &CheckoutPush) -> (r: Option<SquareError>)
    ensures
        push.line_items@.len() == 0 <==> r is Some,
        r matches Some(e) ==> e matches SquareError::Config(m) && m@ == "cannot check out an empty cart"@,
{
    if push.line_items.len() == 0 {
        Some(SquareError::Config(String::from_str("cannot check out an empty cart")))
    } else {
        None
    }
}

/// The string member `name` of `v`, as an owned string.
fn string_member(v: &Json, name: &str) -> (r: Option<String>)
    ensures
        match spec_as_str(spec_get(*v, name@)) {
            Some(s) => r matches Some(x) && x@ == s,
            None => r is None,
        },
{
    match as_str(get(v, name)) {
        Some(s) => Some(s.clone()),
        None => None,
    }
}

fn config_error_about(msg: &str, what: &str) -> (e: SquareError)
    ensures
        e matches SquareError::Config(m) && m@ == msg@ + what@,
{
    let mut m = String::new();
    push_str(&mut m, msg);
    push_str(&mut m, what);
    SquareError::Config(m)
}

/// Read the payment link out of Square's answer to a create: the link's `id`,
/// `order_id` and `url`, all three required. An error quotes what was missing
/// the field: `rendered_resp` is the answer as JSON text, `rendered_link` the
/// `payment_link` member's.
pub fn checkout_handle(resp: &Json, rendered_resp: &str, rendered_link: &str) -> (r: Result<CheckoutHandle, SquareError>)
    ensures
        match spec_get(*resp, "payment_link"@) {
            None => r matches Err(SquareError::Config(m)) && m@ == "no payment_link in response: "@ + rendered_resp@,
            Some(link) => match (
                spec_as_str(spec_get(link, "id"@)),
                spec_as_str(spec_get(link, "order_id"@)),
                spec_as_str(spec_get(link, "url"@)),
            ) {
                (Some(id), Some(order), Some(url)) => r matches Ok(h) && h.payment_link_id@ == id
                    && h.square_order_id@ == order && h.url@ == url,
                (None, _, _) => r matches Err(SquareError::Config(m)) && m@ == "payment_link has no `id`: "@
                    + rendered_link@,
                (Some(_), None, _) => r matches Err(SquareError::Config(m)) && m@
                    == "payment_link has no `order_id`: "@ + rendered_link@,
                (Some(_), Some(_), None) => r matches Err(SquareError::Config(m)) && m@
                    == "payment_link has no `url`: "@ + rendered_link@,
            },
        },
{
    let link = match get(resp, "payment_link") {
        Some(l) => l,
        None => return Err(config_error_about("no payment_link in response: ", rendered_resp)),
    };
    let payment_link_id = match string_member(link, "id") {
        Some(s) => s,
        None => return Err(config_error_about("payment_link has no `id`: ", rendered_link)),
    };
    let square_order_id = match string_member(link, "order_id") {
        Some(s) => s,
        None => return Err(config_error_about("payment_link has no `order_id`: ", rendered_link)),
    };
    let url = match string_member(link, "url") {
        Some(s) => s,
        None => return Err(config_error_about("payment_link has no `url`: ", rendered_link)),
    };
    Ok(CheckoutHandle { payment_link_id, square_order_id, url })
}

/// The payment that settled an order: the first tender's `payment_id`, or its
/// `id` when it has none. `None` for an order with no tenders — a legitimate
/// "not yet", not an error.
pub open spec fn spec_tender_payment_id(order: Json) -> Option<Seq<char>> {
    match spec_as_array(spec_get(order, "tenders"@)) {
        Some(tenders) => if tenders.len() > 0 {
            let t = tenders[0];
            match spec_get(t, "payment_id"@) {
                Some(pid) => spec_as_str(Some(pid)),
                None => spec_as_str(spec_get(t, "id"@)),
            }
        } else {
            None
        },
        None => None,
    }
}

pub fn tender_payment_id(order: &Json) -> (r: Option<String>)
    ensures
        match spec_tender_payment_id(*order) {
            Some(s) => r matches Some(x) && x@ == s,
            None => r is None,
        },
{
    let tenders = match as_array(get(order, "tenders")) {
        Some(t) => t,
        None => return None,
    };
    if tenders.len() == 0 {
        return None;
    }
    let t = &tenders[0];
    let id = match get(t, "payment_id") {
        Some(pid) => as_str(Some(pid)),
        None => as_str(get(t, "id")),
    };
    match id {
        Some(s) => Some(s.clone()),
        None => None,
    }
}

/// The customer id in Square's answer to an update or create, falling back to
/// the id the search found. The error quotes the answer, given as JSON text in
/// `rendered_resp`.
pub fn customer_id_from(resp: &Json, existing: Option<String>, rendered_resp: &str) -> (r: Result<String, SquareError>)
    ensures
        match spec_as_str(spec_get_opt(spec_get(*resp, "customer"@), "id"@)) {
            Some(id) => r matches Ok(x) && x@ == id,
            None => match existing {
                Some(e) => r == Ok::<String, SquareError>(e),
                None => r matches Err(SquareError::Config(m)) && m@ == "no customer id in response: "@
                    + rendered_resp@,
            },
        },
{
    match as_str(get_opt(get(resp, "customer"), "id")) {
        Some(id) => Ok(id.clone()),
        None => match existing {
            Some(e) => Ok(e),
            None => Err(config_error_about("no customer id in response: ", rendered_resp)),
        },
    }
}

/// The id of the first customer a search returned.
pub fn first_customer_id(search: &Json) -> (r: Option<String>)
    ensures
        match spec_as_array(spec_get(*search, "customers"@)) {
            Some(cs) => if cs.len() > 0 {
                match spec_as_str(spec_get(cs[0], "id"@)) {
                    Some(id) => r matches Some(x) && x@ == id,
                    None => r is None,
                }
            } else {
                r is None
            },
            None => r is None,
        },
{
    match as_array(get(search, "customers")) {
        Some(cs) => {
            if cs.len() == 0 {
                None
            } else {
                string_member(&cs[0], "id")
            }
        },
        None => None,
    }
}

/// What to do after one page of a payment listing.
pub enum PageStep {
    /// No further cursor: the listing is complete.
    Done,
    /// Fetch the next page from this cursor.
    Next(String),
    /// The page cap was reached with pages still to come. Truncating silently
    /// would invent "missing in Square" discrepancies, so the listing fails.
    TooManyPages,
}

/// Decide the next step of a listing from the page just read (`page` counts
/// from zero).
pub fn next_page(page: usize, resp: &Json) -> (r: PageStep)
    ensures
        match spec_as_str(spec_get(*resp, "cursor"@)) {
            Some(c) if c.len() > 0 => if page == MAX_PAGES - 1 {
                r is TooManyPages
            } else {
                r matches PageStep::Next(x) && x@ == c
            },
            _ => r is Done,
        },
{
    match as_str(get(resp, "cursor")) {
        Some(c) => {
            if c.unicode_len() == 0 {
                PageStep::Done
            } else if page == MAX_PAGES - 1 {
                PageStep::TooManyPages
            } else {
                PageStep::Next(c.clone())
            }
        },
        None => PageStep::Done,
    }
}

/// Every payment object of a page carries an id.
pub open spec fn all_have_ids(ps: Seq<Json>) -> bool {
    forall|k: int| 0 <= k < ps.len() ==> (#[trigger] spec_as_str(spec_get(ps[k], "id"@))) is Some
}

/// The payments one page of a listing carries, appended in order. The first
/// payment without an id fails the page, quoted: `rendered[k]` is the JSON text
/// of the page's payment `k`.
pub fn page_payments(resp: &Json, rendered: &Vec<String>, out: &mut Vec<RemotePayment>) -> (r: Result<(), SquareError>)
    requires
        spec_as_array(spec_get(*resp, "payments"@)) matches Some(ps) ==> rendered@.len() == ps.len(),
    ensures
        match spec_as_array(spec_get(*resp, "payments"@)) {
            Some(ps) => {
                &&& all_have_ids(ps) <==> r is Ok
                &&& r is Ok ==> final(out)@.len() == old(out)@.len() + ps.len() && forall|k: int|
                    0 <= k < ps.len() ==> read_as(#[trigger] final(out)@[old(out)@.len() + k], ps[k])
                &&& r matches Err(e) ==> exists|k: int| {
                    &&& 0 <= k < ps.len()
                    &&& spec_as_str(spec_get(ps[k], "id"@)) is None
                    &&& all_have_ids(ps.take(k))
                    &&& e matches SquareError::Config(m) && m@ == "payment has no id: "@ + (#[trigger] rendered@[k])@
                }
            },
            None => r is Ok && final(out)@ == old(out)@,
        },
        final(out)@.len() >= old(out)@.len(),
        forall|i: int| 0 <= i < old(out)@.len() ==> #[trigger] final(out)@[i] == old(out)@[i],
{
    let payments = match as_array(get(resp, "payments")) {
        Some(ps) => ps,
        None => return Ok(()),
    };
    let ghost start = out@;
    let mut i: usize = 0;
    while i < payments.len()
        invariant
            i <= payments@.len(),
            spec_as_array(spec_get(*resp, "payments"@)) == Some(payments@),
            start == old(out)@,
            out@.len() == start.len() + i,
            forall|j: int| 0 <= j < start.len() ==> #[trigger] out@[j] == start[j],
            forall|k: int| 0 <= k < i ==> read_as(#[trigger] out@[start.len() + k], payments@[k]),
            forall|k: int| 0 <= k < i ==> (#[trigger] spec_as_str(spec_get(payments@[k], "id"@))) is Some,
            rendered@.len() == payments@.len(),
        decreases payments@.len() - i,
    {
        match parse_payment(&payments[i], rendered[i].as_str()) {
            Ok(p) => out.push(p),
            Err(e) => {
                proof {
                    assert(spec_as_str(spec_get(payments@[i as int], "id"@)) is None);
                    assert(!all_have_ids(payments@));
                    assert forall|k: int| 0 <= k < i implies (#[trigger] spec_as_str(spec_get(payments@.take(i as int)[k], "id"@))) is Some by {
                        assert(payments@.take(i as int)[k] == payments@[k]);
                    }
                    assert(rendered@[i as int]@ == rendered[i as int]@);
                }
                return Err(e);
            },
        }
        proof {
            assert(out@[start.len() + i] == out@.last());
        }
        i = i + 1;
    }
    Ok(())
}

/// The request path for one page of payments in a window (times already in
/// RFC 3339), with the cursor of the page before when there is one.
pub open spec fn spec_payments_path(begin: Seq<char>, end: Seq<char>, location: Seq<char>, cursor: Option<Seq<char>>) -> Seq<char> {
    let base = "/v2/payments?begin_time="@ + url_encode(vstd::utf8::encode_utf8(begin)) + "&end_time="@
        + url_encode(vstd::utf8::encode_utf8(end)) + "&location_id="@ + url_encode(vstd::utf8::encode_utf8(location))
        + "&limit=100"@;
    match cursor {
        Some(c) => base + "&cursor="@ + url_encode(vstd::utf8::encode_utf8(c)),
        None => base,
    }
}

pub fn payments_path(begin: &str, end: &str, location: &str, cursor: Option<&str>) -> (r: String)
    ensures
        r@ == spec_payments_path(begin@, end@, location@, match cursor { Some(c) => Some(c@), None => None }),
{
    let mut path = String::new();
    push_str(&mut path, "/v2/payments?begin_time=");
    let b = urlencoding(begin);
    push_str(&mut path, b.as_str());
    push_str(&mut path, "&end_time=");
    let e = urlencoding(end);
    push_str(&mut path, e.as_str());
    push_str(&mut path, "&location_id=");
    let l = urlencoding(location);
    push_str(&mut path, l.as_str());
    push_str(&mut path, "&limit=100");
    let ghost base = path@;
    match cursor {
        Some(c) => {
            push_str(&mut path, "&cursor=");
            let ce = urlencoding(c);
            push_str(&mut path, ce.as_str());
        },
        None => {},
    }
    proof {
        assert(base =~= "/v2/payments?begin_time="@ + url_encode(vstd::utf8::encode_utf8(begin@)) + "&end_time="@
            + url_encode(vstd::utf8::encode_utf8(end@)) + "&location_id="@ + url_encode(
            vstd::utf8::encode_utf8(location@),
        ) + "&limit=100"@);
        match cursor {
            Some(c) => assert(path@ =~= base + "&cursor="@ + url_encode(vstd::utf8::encode_utf8(c@))),
            None => {},
        }
    }
    path
}

/// The backend's label for logs and the status endpoint.
pub fn live_backend_name(env: SquareEnv) -> (r: &'static str)
    ensures
        r@ == (match env {
            SquareEnv::Sandbox => "square-sandbox"@,
            SquareEnv::Production => "square-production"@,
        }),
{
    match env {
        SquareEnv::Sandbox => "square-sandbox",
        SquareEnv::Production => "square-production",
    }
}

/// The `payment` member of Square's answer to a fetch. `rendered` is the
/// answer as text, quoted in the error when the member is missing.
pub fn payment_member<'a>(resp: &'a Json, rendered: &str) -> (r: Result<&'a Json, SquareError>)
    ensures
        match spec_get(*resp, "payment"@) {
            Some(p) => r matches Ok(x) && *x == p,
            None => r matches Err(SquareError::Config(m)) && m@ == "no payment in response: "@ + rendered@,
        },
{
    match get(resp, "payment") {
        Some(p) => Ok(p),
        None => {
            let mut m = String::new();
            push_str(&mut m, "no payment in response: ");
            push_str(&mut m, rendered);
            Err(SquareError::Config(m))
        },
    }
}

/// The refusal when a listing runs past the page cap: truncating silently
/// would understate Square's side, so the window must be narrowed instead.
pub fn too_many_pages(begin: &str, end: &str) -> (e: SquareError)
    ensures
        e matches SquareError::Config(m) && m@ == "list_payments exceeded 100 pages for "@ + begin@ + ".."@ + end@
            + "; narrow the reconciliation window"@,
{
    let mut m = String::new();
    push_str(&mut m, "list_payments exceeded 100 pages for ");
    push_str(&mut m, begin);
    push_str(&mut m, "..");
    push_str(&mut m, end);
    push_str(&mut m, "; narrow the reconciliation window");
    SquareError::Config(m)
}

} // verus!
