//! The Square boundary's data model. Square speaks integer minor units (cents
//! for USD) plus an ISO currency code and never accepts a decimal, so every
//! amount crossing this boundary is an `i64` of cents. Timestamps are
//! microseconds since the Unix epoch, UTC.

use vstd::prelude::*;
use crate::text::{decimal, eq_ignore_ascii_case, eq_ignore_ascii_case_str, push_decimal, push_str};

verus! {

/// Which Square environment the credentials point at. Sandbox and production are
/// entirely separate hosts *and* separate credential sets.
#[derive(Debug, Clone, Copy, PartialEq, Eq, Structural)]
pub enum SquareEnv {
    Sandbox,
    Production,
}

impl SquareEnv {
    pub fn base_url(&self) -> (r: &'static str)
        ensures
            r@ == (match self {
                SquareEnv::Sandbox => "https://connect.squareupsandbox.com"@,
                SquareEnv::Production => "https://connect.squareup.com"@,
            }),
    {
        match self {
            SquareEnv::Sandbox => "https://connect.squareupsandbox.com",
            SquareEnv::Production => "https://connect.squareup.com",
        }
    }

    pub fn label(&self) -> (r: &'static str)
        ensures
            r@ == (match self {
                SquareEnv::Sandbox => "sandbox"@,
                SquareEnv::Production => "production"@,
            }),
    {
        match self {
            SquareEnv::Sandbox => "sandbox",
            SquareEnv::Production => "production",
        }
    }
}

/// One line of a cart on its way to Square.
#[derive(Debug, Clone)]
pub struct LineItemPush {
    pub name: String,
    pub quantity: i32,
    pub unit_amount_cents: i64,
}

/// An amount taken off the whole order (a referral or a coupon).
#[derive(Debug, Clone)]
pub struct DiscountPush {
    pub name: String,
    pub amount_cents: i64,
}

/// A cart being handed to Square to collect money for.
#[derive(Debug)]
pub struct CheckoutPush {
    /// Our cart id. Travels as the Square order's `reference_id`, which is what
    /// makes reconciliation possible in the direction Square -> us.
    pub cart_id: u128,
    /// Reused verbatim on retries so a timed-out create doesn't mint a second link.
    pub idempotency_key: String,
    pub currency: String,
    pub buyer_email: Option<String>,
    pub line_items: Vec<LineItemPush>,
    pub discounts: Vec<DiscountPush>,
    /// Where Square sends the browser after a successful payment.
    pub redirect_url: Option<String>,
    pub note: Option<String>,
}

/// What Square hands back when a payment link is created.
#[derive(Debug)]
pub struct CheckoutHandle {
    pub payment_link_id: String,
    pub square_order_id: String,
    /// The hosted page the customer actually pays on.
    pub url: String,
}

/// Authoritative state of a payment, fetched back from Square.
#[derive(Debug, Clone)]
pub struct RemotePayment {
    pub payment_id: String,
    pub square_order_id: Option<String>,
    /// APPROVED / COMPLETED / CANCELED / FAILED.
    pub status: String,
    pub amount_cents: i64,
    pub currency: String,
    pub created_at: i64,
    /// Total refunded against this payment, if any.
    pub refunded_cents: i64,
}

impl RemotePayment {
    pub open spec fn completed(&self) -> bool {
        eq_ignore_ascii_case(self.status@, "COMPLETED"@)
    }

    pub open spec fn refunded(&self) -> bool {
        self.refunded_cents > 0
    }

    /// What the payment collected, net of refunds.
    pub open spec fn net_cents(&self) -> int {
        self.amount_cents - self.refunded_cents
    }

    /// The payment settles the Square order whose id reads `order`.
    pub open spec fn settles(&self, order: Seq<char>) -> bool {
        match self.square_order_id {
            Some(id) => id@ == order,
            None => false,
        }
    }

    pub fn is_completed(&self) -> (r: bool)
        ensures
            r == self.completed(),
    {
        eq_ignore_ascii_case_str(self.status.as_str(), "COMPLETED")
    }

    pub fn is_refunded(&self) -> (r: bool)
        ensures
            r == self.refunded(),
    {
        self.refunded_cents > 0
    }
}

/// A customer to upsert into Square Customers.
#[derive(Debug)]
pub struct CustomerPush {
    pub id: u128,
    pub email: String,
    pub name: Option<String>,
    pub marketing_consent: bool,
}

#[derive(Debug)]
pub enum SquareError {
    /// Transport/connection problem — always worth retrying.
    Transport(String),
    /// Square answered with an error status. `retryable` is true for 5xx and 429.
    Api { status: u16, body: String, retryable: bool },
    /// Misconfiguration or bad data — retrying won't help until something changes.
    Config(String),
}

impl SquareError {
    pub open spec fn spec_retryable(&self) -> bool {
        match self {
            SquareError::Transport(_) => true,
            SquareError::Api { retryable, .. } => *retryable,
            SquareError::Config(_) => false,
        }
    }

    pub fn retryable(&self) -> (r: bool)
        ensures
            r == self.spec_retryable(),
    {
        match self {
            SquareError::Transport(_) => true,
            SquareError::Api { retryable, .. } => *retryable,
            SquareError::Config(_) => false,
        }
    }

    pub open spec fn spec_message(&self) -> Seq<char> {
        match self {
            SquareError::Transport(msg) => "transport error: "@ + msg@,
            SquareError::Api { status, body, .. } => "api error "@ + decimal(*status as nat) + ": "@
                + body@,
            SquareError::Config(msg) => "config error: "@ + msg@,
        }
    }

    /// The human-readable rendering used in logs and error responses.
    pub fn message(&self) -> (r: String)
        ensures
            r@ == self.spec_message(),
    {
        let mut s = String::new();
        match self {
            SquareError::Transport(msg) => {
                push_str(&mut s, "transport error: ");
                push_str(&mut s, msg.as_str());
            },
            SquareError::Api { status, body, .. } => {
                push_str(&mut s, "api error ");
                push_decimal(&mut s, *status as u64);
                push_str(&mut s, ": ");
                push_str(&mut s, body.as_str());
            },
            SquareError::Config(msg) => {
                push_str(&mut s, "config error: ");
                push_str(&mut s, msg.as_str());
            },
        }
        proof {
            assert(s@ =~= self.spec_message());
        }
        s
    }
}

/// Configuration read once at startup.
pub struct SquareConfig {
    pub access_token: String,
    pub location_id: String,
    pub env: SquareEnv,
    pub redirect_url: Option<String>,
}

} // verus!
