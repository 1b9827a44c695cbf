//! Carts: the unit of a checkout. One cart is one Square order is one payment.

use vstd::prelude::*;

verus! {

/// Where a cart is in its life. `open` carts can still be edited and sent to
/// Square; `pending_payment` carts have a live payment link.
#[derive(Debug, Clone, Copy, PartialEq, Eq, Structural)]
pub enum CartStatus {
    Open,
    PendingPayment,
    Paid,
    Canceled,
    Refunded,
}

impl CartStatus {
    pub fn is_open(&self) -> (r: bool)
        ensures
            r == (*self == CartStatus::Open),
    {
        match self {
            CartStatus::Open => true,
            _ => false,
        }
    }

    /// Paid or refunded: money has moved against this cart.
    pub open spec fn is_settled(self) -> bool {
        self == CartStatus::Paid || self == CartStatus::Refunded
    }

    pub fn settled(&self) -> (r: bool)
        ensures
            r == self.is_settled(),
    {
        match self {
            CartStatus::Paid | CartStatus::Refunded => true,
            _ => false,
        }
    }

    /// The database spelling of the status.
    pub fn as_str(&self) -> (r: &'static str)
        ensures
            r@ == self.spec_name(),
    {
        match self {
            CartStatus::Open => "open",
            CartStatus::PendingPayment => "pending_payment",
            CartStatus::Paid => "paid",
            CartStatus::Canceled => "canceled",
            CartStatus::Refunded => "refunded",
        }
    }

    /// The variant's name as `{:?}` prints it.
    pub fn debug_name(&self) -> (r: &'static str)
        ensures
            r@ == self.spec_debug_name(),
    {
        match self {
            CartStatus::Open => "Open",
            CartStatus::PendingPayment => "PendingPayment",
            CartStatus::Paid => "Paid",
            CartStatus::Canceled => "Canceled",
            CartStatus::Refunded => "Refunded",
        }
    }

    pub open spec fn spec_debug_name(self) -> Seq<char> {
        match self {
            CartStatus::Open => "Open"@,
            CartStatus::PendingPayment => "PendingPayment"@,
            CartStatus::Paid => "Paid"@,
            CartStatus::Canceled => "Canceled"@,
            CartStatus::Refunded => "Refunded"@,
        }
    }

    pub open spec fn spec_name(self) -> Seq<char> {
        match self {
            CartStatus::Open => "open"@,
            CartStatus::PendingPayment => "pending_payment"@,
            CartStatus::Paid => "paid"@,
            CartStatus::Canceled => "canceled"@,
            CartStatus::Refunded => "refunded"@,
        }
    }
}

/// A cart as stored. Timestamps are microseconds since the Unix epoch.
#[derive(Debug, Clone)]
pub struct Cart {
    pub id: u128,
    pub customer_id: u128,
    pub status: CartStatus,
    pub currency: String,
    /// What the lines add up to, net of any discount.
    pub total_cents: i64,
    /// What Square reported collecting, once it has (net of refunds).
    pub paid_cents: Option<i64>,
    pub idempotency_key: String,
    pub note: Option<String>,
    pub square_order_id: Option<String>,
    pub square_payment_link_id: Option<String>,
    pub checkout_url: Option<String>,
    pub created_at: i64,
    pub paid_at: Option<i64>,
}

impl Cart {
    /// Net amount a cart represents locally: what Square reported if it reported
    /// anything, else what we quoted.
    pub open spec fn spec_local_cents(self) -> i64 {
        match self.paid_cents {
            Some(p) => p,
            None => self.total_cents,
        }
    }

    pub fn local_cents(&self) -> (r: i64)
        ensures
            r == self.spec_local_cents(),
    {
        match self.paid_cents {
            Some(p) => p,
            None => self.total_cents,
        }
    }
}

/// One line of a cart.
#[derive(Debug, Clone)]
pub struct CartItem {
    pub id: u128,
    pub cart_id: u128,
    /// The order this line sells, for `blend` lines.
    pub order_id: Option<u128>,
    pub name: String,
    pub quantity: i32,
    pub unit_amount_cents: i64,
    /// `blend`, `event_deposit`, `fee` or `other`.
    pub kind: String,
}

impl CartItem {
    pub open spec fn spec_line_total(self) -> int {
        self.unit_amount_cents * self.quantity
    }

    pub fn line_total_cents(&self) -> (r: i64)
        requires
            i64::MIN <= self.spec_line_total() <= i64::MAX,
        ensures
            r == self.spec_line_total(),
    {
        self.unit_amount_cents * (self.quantity as i64)
    }
}

} // verus!
