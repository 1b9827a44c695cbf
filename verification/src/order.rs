//! Orders: what a customer is taking away, one line of an intake.

use vstd::prelude::*;
use crate::money::Amount;
use crate::error::AppError;
use crate::text::str_eq;

verus! {

/// A blend built at the bar, or one of the house scents.
#[derive(Debug, Clone, Copy, PartialEq, Eq, Structural)]
pub enum OrderType {
    CustomMix,
    SetPerfume,
}

/// The four bottle sizes. 3.4 oz is the base formula; 1.7 oz is half of it;
/// the roller and the spray are both 10 ml and differ only in the closure.
#[derive(Debug, Clone, Copy, PartialEq, Eq, Structural)]
pub enum BottleSize {
    Oz3_4,
    Oz1_7,
    Roller,
    Spray,
}

/// `lead` until a cart carrying the order is paid.
#[derive(Debug, Clone, Copy, PartialEq, Eq, Structural)]
pub enum OrderStatus {
    Lead,
    Paid,
    Fulfilled,
}

impl OrderType {
    pub open spec fn spec_label(self) -> Seq<char> {
        match self {
            OrderType::CustomMix => "Custom mix"@,
            OrderType::SetPerfume => "Set perfume"@,
        }
    }

    /// How the type reads on a cart line.
    pub fn label(&self) -> (r: &'static str)
        ensures
            r@ == self.spec_label(),
    {
        match self {
            OrderType::CustomMix => "Custom mix",
            OrderType::SetPerfume => "Set perfume",
        }
    }
}

impl BottleSize {
    pub open spec fn spec_label(self) -> Seq<char> {
        match self {
            BottleSize::Oz3_4 => "3.4 oz"@,
            BottleSize::Oz1_7 => "1.7 oz"@,
            BottleSize::Roller => "Roller"@,
            BottleSize::Spray => "Spray (10 ml)"@,
        }
    }

    /// How the size reads on a cart line.
    pub fn label(&self) -> (r: &'static str)
        ensures
            r@ == self.spec_label(),
    {
        match self {
            BottleSize::Oz3_4 => "3.4 oz",
            BottleSize::Oz1_7 => "1.7 oz",
            BottleSize::Roller => "Roller",
            BottleSize::Spray => "Spray (10 ml)",
        }
    }
}

impl OrderStatus {
    pub open spec fn spec_name(self) -> Seq<char> {
        match self {
            OrderStatus::Lead => "lead"@,
            OrderStatus::Paid => "paid"@,
            OrderStatus::Fulfilled => "fulfilled"@,
        }
    }

    /// The database spelling.
    pub fn as_str(&self) -> (r: &'static str)
        ensures
            r@ == self.spec_name(),
    {
        match self {
            OrderStatus::Lead => "lead",
            OrderStatus::Paid => "paid",
            OrderStatus::Fulfilled => "fulfilled",
        }
    }
}

/// An order as stored.
#[derive(Debug)]
pub struct Order {
    pub id: u128,
    pub customer_id: u128,
    pub order_type: OrderType,
    pub size: BottleSize,
    pub quantity: i32,
    pub mix_id: Option<u128>,
    pub scent_id: Option<u128>,
    pub status: OrderStatus,
    /// Unit price; `None` until someone prices it.
    pub amount: Option<Amount>,
    pub intake_id: Option<u128>,
    pub bundle_id: Option<u128>,
    pub external_ref: Option<String>,
}

#[derive(Debug)]
pub struct ListOrdersQuery {
    pub status: Option<String>,
    pub customer_id: Option<u128>,
    /// Only orders not already claimed by a cart: an order already on a cart
    /// must not be offered for sale a second time.
    pub uncarted: bool,
}

#[derive(Debug)]
pub struct UpdateOrderRequest {
    pub status: Option<String>,
    pub squarespace_order_id: Option<String>,
    pub external_ref: Option<String>,
    pub amount: Option<Amount>,
}

/// An order is marked ready to collect only once it has been paid for.
pub fn may_fulfil(status: &str) -> (r: Result<(), AppError>)
    ensures
        status@ == "lead"@ ==> (r matches Err(AppError::Conflict(m)) && m@
            == "this order hasn't been paid for yet — take payment before marking it ready"@),
        status@ != "lead"@ ==> r is Ok,
{
    if str_eq(status, "lead") {
        Err(AppError::Conflict(String::from_str(
            "this order hasn't been paid for yet — take payment before marking it ready",
        )))
    } else {
        Ok(())
    }
}

} // verus!
