//! The Squarespace sync boundary: what is pushed, what comes back, and the
//! in-process stand-in used when no API key is configured.

use vstd::prelude::*;
use crate::ident::{id_simple, push_amount_text, push_id_text, spec_amount_text, spec_id_simple, spec_id_text};
use crate::json::{as_str, get, spec_as_str, spec_get, Json};
use crate::money::Amount;
use crate::square_api::spec_transient_status;
use crate::text::{blank, decimal, is_blank, push_decimal, push_str};

verus! {

/// A customer to upsert into Squarespace Contacts.
#[derive(Debug)]
pub struct ContactPush {
    pub id: u128,
    pub email: String,
    pub name: Option<String>,
    pub marketing_consent: bool,
}

/// An order to create in Squarespace Orders.
#[derive(Debug)]
pub struct OrderPush {
    pub id: u128,
    pub email: String,
    pub name: Option<String>,
    pub order_type: String,
    pub size: String,
    pub status: String,
    pub amount: Option<Amount>,
    pub description: String,
}

#[derive(Debug)]
pub enum SyncError {
    /// Transport/connection problem — always worth retrying.
    Transport(String),
    /// Squarespace answered with an error status. `retryable` is true for 5xx
    /// and 429 (transient), false for other 4xx that retrying can't fix.
    Api { status: u16, body: String, retryable: bool },
    /// Misconfiguration or bad data — retrying won't help until something is
    /// fixed upstream.
    Config(String),
}

impl SyncError {
    pub open spec fn spec_retryable(&self) -> bool {
        match self {
            SyncError::Transport(_) => true,
            SyncError::Api { retryable, .. } => *retryable,
            SyncError::Config(_) => false,
        }
    }

    pub fn retryable(&self) -> (r: bool)
        ensures
            r == self.spec_retryable(),
    {
        match self {
            SyncError::Transport(_) => true,
            SyncError::Api { retryable, .. } => *retryable,
            SyncError::Config(_) => false,
        }
    }

    pub open spec fn spec_message(&self) -> Seq<char> {
        match self {
            SyncError::Transport(msg) => "transport error: "@ + msg@,
            SyncError::Api { status, body, .. } => "api error "@ + decimal(*status as nat) + ": "@
                + body@,
            SyncError::Config(msg) => "config error: "@ + msg@,
        }
    }

    /// The human-readable rendering used in logs and stored as the job's error.
    pub fn message(&self) -> (r: String)
        ensures
            r@ == self.spec_message(),
    {
        let mut s = String::new();
        match self {
            SyncError::Transport(msg) => {
                push_str(&mut s, "transport error: ");
                push_str(&mut s, msg.as_str());
            },
            SyncError::Api { status, body, .. } => {
                push_str(&mut s, "api error ");
                push_decimal(&mut s, *status as u64);
                push_str(&mut s, ": ");
                push_str(&mut s, body.as_str());
            },
            SyncError::Config(msg) => {
                push_str(&mut s, "config error: ");
                push_str(&mut s, msg.as_str());
            },
        }
        proof {
            assert(s@ =~= self.spec_message());
        }
        s
    }
}

/// The error for an unsuccessful answer: 5xx and 429 are transient and worth
/// retrying; other 4xx are our fault and won't fix themselves.
pub fn sync_api_failure(status: u16, body: String) -> (e: SyncError)
    ensures
        e matches SyncError::Api { status: s, body: b, retryable } && s == status && b@ == body@
            && retryable == spec_transient_status(status),
{
    let retryable = (500 <= status && status <= 599) || status == 429;
    SyncError::Api { status, body, retryable }
}

/// The live client is used exactly when an API key is present and not blank.
pub fn uses_live_client(api_key: Option<&str>) -> (r: bool)
    ensures
        r == match api_key {
            Some(k) => !is_blank(k@),
            None => false,
        },
{
    match api_key {
        Some(k) => !blank(k),
        None => false,
    }
}

/// The created entity's id, read from the `id` field of the answer. `rendered`
/// is the answer as text, quoted in the error when the field is missing.
pub fn read_id(resp: &Json, rendered: &str) -> (r: Result<String, SyncError>)
    ensures
        match spec_as_str(spec_get(*resp, "id"@)) {
            Some(id) => r matches Ok(s) && s@ == id,
            None => r matches Err(SyncError::Config(m)) && m@ == "no `id` field in response: "@
                + rendered@,
        },
{
    match as_str(get(resp, "id")) {
        Some(id) => Ok(id.clone()),
        None => {
            let mut m = String::new();
            push_str(&mut m, "no `id` field in response: ");
            push_str(&mut m, rendered);
            Err(SyncError::Config(m))
        },
    }
}

fn text(s: &str) -> (j: Json)
    ensures
        j matches Json::String(x) && x@ == s@,
{
    Json::String(String::from_str(s))
}

fn opt_text(s: &Option<String>) -> (j: Json)
    ensures
        match *s {
            Some(v) => j matches Json::String(x) && x@ == v@,
            None => j matches Json::Null,
        },
{
    match s {
        Some(v) => Json::String(v.clone()),
        None => Json::Null,
    }
}

/// The body of a contact upsert: the email, the name (or null) and the
/// marketing consent.
pub fn contact_body(c: &ContactPush) -> (b: Json)
    ensures
        b matches Json::Object(m) && m@.len() == 3 && m@[0].0@ == "emailAddress"@ && (m@[0].1 matches Json::String(
            x,
        ) && x@ == c.email@) && m@[1].0@ == "firstName"@ && (match c.name {
            Some(n) => m@[1].1 matches Json::String(x) && x@ == n@,
            None => m@[1].1 matches Json::Null,
        }) && m@[2].0@ == "acceptsMarketing"@ && m@[2].1 == Json::Bool(c.marketing_consent),
{
    let mut members: Vec<(String, Json)> = Vec::new();
    members.push((String::from_str("emailAddress"), text(c.email.as_str())));
    members.push((String::from_str("firstName"), opt_text(&c.name)));
    members.push((String::from_str("acceptsMarketing"), Json::Bool(c.marketing_consent)));
    Json::Object(members)
}

/// The body of an order create: the customer's email, one line carrying the
/// description, the grand total as decimal text (or null), and our order id as
/// the external reference.
pub fn order_body(o: &OrderPush) -> (b: Json)
    requires
        o.amount matches Some(a) ==> a.wf(),
    ensures
        b matches Json::Object(m) && m@.len() == 4 && m@[0].0@ == "customerEmail"@ && (m@[0].1 matches Json::String(
            x,
        ) && x@ == o.email@) && m@[1].0@ == "lineItems"@ && (m@[1].1 matches Json::Array(items)
            && items@.len() == 1 && (items@[0] matches Json::Object(li) && li@.len() == 2 && li@[0].0@
            == "description"@ && (li@[0].1 matches Json::String(x) && x@ == o.description@) && li@[1].0@
            == "quantity"@ && li@[1].1 == Json::Number(Some(1i64)))) && m@[2].0@ == "grandTotal"@ && (
        match o.amount {
            Some(a) => m@[2].1 matches Json::String(x) && x@ == spec_amount_text(a),
            None => m@[2].1 matches Json::Null,
        }) && m@[3].0@ == "externalOrderReference"@ && (m@[3].1 matches Json::String(x) && x@
            == spec_id_text(o.id)),
{
    let mut line: Vec<(String, Json)> = Vec::new();
    line.push((String::from_str("description"), text(o.description.as_str())));
    line.push((String::from_str("quantity"), Json::Number(Some(1i64))));
    let mut lines: Vec<Json> = Vec::new();
    lines.push(Json::Object(line));
    let total = match o.amount {
        Some(a) => {
            let mut s = String::new();
            push_amount_text(&mut s, a);
            Json::String(s)
        },
        None => Json::Null,
    };
    let mut reference = String::new();
    push_id_text(&mut reference, o.id);
    let mut members: Vec<(String, Json)> = Vec::new();
    members.push((String::from_str("customerEmail"), text(o.email.as_str())));
    members.push((String::from_str("lineItems"), Json::Array(lines)));
    members.push((String::from_str("grandTotal"), total));
    members.push((String::from_str("externalOrderReference"), Json::String(reference)));
    Json::Object(members)
}

/// In-process stand-in for Squarespace: hands back a deterministic id derived
/// from the entity's id, so re-runs are stable and the written-back id is
/// recognisable as a mock. No network, never fails.
#[derive(Debug, Default)]
pub struct MockSquarespace;

impl MockSquarespace {
    pub fn name(&self) -> (r: &'static str)
        ensures
            r@ == "mock"@,
    {
        "mock"
    }

    pub fn upsert_contact(&self, contact: &ContactPush) -> (r: Result<String, SyncError>)
        ensures
            r matches Ok(id) && id@ == "mock_contact_"@ + spec_id_simple(contact.id),
    {
        let mut s = String::new();
        push_str(&mut s, "mock_contact_");
        let h = id_simple(contact.id);
        push_str(&mut s, h.as_str());
        Ok(s)
    }

    pub fn create_order(&self, order: &OrderPush) -> (r: Result<String, SyncError>)
        ensures
            r matches Ok(id) && id@ == "mock_order_"@ + spec_id_simple(order.id),
    {
        let mut s = String::new();
        push_str(&mut s, "mock_order_");
        let h = id_simple(order.id);
        push_str(&mut s, h.as_str());
        Ok(s)
    }
}

/// The name the live client reports itself by.
pub fn live_name() -> (r: &'static str)
    ensures
        r@ == "squarespace"@,
{
    "squarespace"
}

} // verus!
