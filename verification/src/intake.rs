//! Stand intake: record a customer and everything they are taking away.
//!
//! Intake records intent, never money: every order is created as a lead, and
//! nothing is owed until the order goes into a cart that is checked out.
//! Every line is resolved and checked before anything is written, so a bad
//! request fails cleanly rather than half-recording an intake.

use vstd::prelude::*;
use crate::accounts::Customer;
use crate::catalog::{
    amounts_positive, check_active_count, check_amounts, check_ingredient_ids, ingredient_ids, ingredient_ids_error,
    MixDetail, MixItemInput,
};
use crate::error::AppError;
use crate::money::Amount;
use crate::order::{BottleSize, Order, OrderType};
use crate::text::{blank, contains_char, has_char, is_blank, is_whitespace, lemma_blank_is_all_whitespace};

verus! {

/// Guards against a runaway client; a stand order is a handful of bottles.
pub const MAX_ITEMS: usize = 20;
pub const MAX_QUANTITY: i32 = 50;

#[derive(Debug)]
pub struct IntakeMixRequest {
    /// A blend nobody named is one nobody can find again.
    pub name: String,
    pub items: Vec<MixItemInput>,
}

#[derive(Debug)]
pub struct IntakeItemRequest {
    pub order_type: OrderType,
    pub size: BottleSize,
    pub quantity: i32,
    pub scent_id: Option<u128>,
    pub mix: Option<IntakeMixRequest>,
    /// Overrides the catalogue price for this line.
    pub amount: Option<Amount>,
}

#[derive(Debug)]
pub struct IntakeRequest {
    pub email: String,
    pub name: Option<String>,
    pub marketing_consent: bool,
    pub scent_preference_ids: Option<Vec<u128>>,
    /// What the customer is taking away.
    pub items: Vec<IntakeItemRequest>,
    /// A package deal whose components are added on top of `items`.
    pub bundle_id: Option<u128>,
}

#[derive(Debug)]
pub struct IntakeOrderResult {
    pub order: Order,
    pub mix: Option<MixDetail>,
}

#[derive(Debug)]
pub struct IntakeResponse {
    pub intake_id: u128,
    pub customer: Customer,
    pub orders: Vec<IntakeOrderResult>,
}

/// The idempotency key a submission must carry, so a double-tap or a flaky
/// connection cannot record it twice.
pub fn idempotency_key(header: Option<&str>) -> (r: Result<String, AppError>)
    ensures
        match header {
            Some(h) => if h@.len() > 0 {
                r matches Ok(k) && k@ == h@
            } else {
                r matches Err(AppError::BadRequest(m)) && m@ == "Idempotency-Key header is required"@
            },
            None => r matches Err(AppError::BadRequest(m)) && m@ == "Idempotency-Key header is required"@,
        },
{
    match header {
        Some(h) => {
            if h.unicode_len() > 0 {
                Ok(String::from_str(h))
            } else {
                Err(AppError::BadRequest(String::from_str("Idempotency-Key header is required")))
            }
        },
        None => Err(AppError::BadRequest(String::from_str("Idempotency-Key header is required"))),
    }
}

/// Why a submission is refused before any line is looked at, if it is.
pub open spec fn intake_error(b: IntakeRequest) -> Option<Seq<char>> {
    if !has_char(b.email@, '@') || is_blank(b.email@) {
        Some("a valid email is required"@)
    } else if b.items@.len() == 0 && b.bundle_id is None {
        Some("an intake needs at least one item"@)
    } else if b.items@.len() > MAX_ITEMS {
        Some("an intake is limited to 20 lines"@)
    } else {
        None
    }
}

/// An intake is accepted only under an address with an `@` in it and with
/// something besides whitespace: one without an `@`, or with nothing but
/// whitespace, is refused, first of all checks, as needing a valid email.
pub proof fn lemma_intake_needs_an_address(b: IntakeRequest)
    ensures
        (forall|i: int| 0 <= i < b.email@.len() ==> b.email@[i] != '@') ==> intake_error(b) == Some(
            "a valid email is required"@,
        ),
        (forall|i: int| 0 <= i < b.email@.len() ==> is_whitespace(#[trigger] b.email@[i])) ==> intake_error(b) == Some(
            "a valid email is required"@,
        ),
        intake_error(b) is None ==> (exists|i: int| 0 <= i < b.email@.len() && b.email@[i] == '@') && (exists|i: int|
            0 <= i < b.email@.len() && !is_whitespace(#[trigger] b.email@[i])),
{
    lemma_blank_is_all_whitespace(b.email@);
}

pub fn check_intake(body: &IntakeRequest) -> (r: Result<(), AppError>)
    ensures
        match intake_error(*body) {
            Some(m) => r matches Err(AppError::BadRequest(x)) && x@ == m,
            None => r is Ok,
        },
{
    if !contains_char(body.email.as_str(), '@') || blank(body.email.as_str()) {
        return Err(AppError::BadRequest(String::from_str("a valid email is required")));
    }
    if body.items.len() == 0 && body.bundle_id.is_none() {
        return Err(AppError::BadRequest(String::from_str("an intake needs at least one item")));
    }
    if body.items.len() > MAX_ITEMS {
        return Err(AppError::BadRequest(String::from_str("an intake is limited to 20 lines")));
    }
    Ok(())
}

/// What a line still has to be checked against in the catalogue once its
/// shape is right.
#[derive(Debug)]
pub enum LineNeeds {
    /// A custom blend: these ingredients must all be active, then every amount
    /// must be positive.
    ActiveIngredients(Vec<u128>),
    /// A set perfume: this scent must exist and be active.
    ActiveScent(u128),
}

/// Why a line's shape is wrong, if it is.
pub open spec fn line_error(item: IntakeItemRequest) -> Option<Seq<char>> {
    if item.quantity < 1 || item.quantity > MAX_QUANTITY {
        Some("quantity must be between 1 and 50"@)
    } else {
        match item.order_type {
            OrderType::CustomMix => if item.scent_id is Some {
                Some("scent_id must not be set for a custom_mix line"@)
            } else {
                match item.mix {
                    None => Some("a custom_mix line needs its blend"@),
                    Some(m) => if is_blank(m.name@) {
                        Some("every custom blend needs a name"@)
                    } else if m.items@.len() == 0 {
                        Some("a custom blend needs at least one ingredient"@)
                    } else {
                        ingredient_ids_error(m.items@.map_values(|i: MixItemInput| i.ingredient_id))
                    },
                }
            },
            OrderType::SetPerfume => if item.mix is Some {
                Some("mix must not be set for a set_perfume line"@)
            } else if item.scent_id is None {
                Some("a set_perfume line needs a scent"@)
            } else {
                None
            },
        }
    }
}

/// Checks one requested line's shape and says what the catalogue still has to
/// confirm about it.
pub fn check_line(item: &IntakeItemRequest) -> (r: Result<LineNeeds, AppError>)
    ensures
        match line_error(*item) {
            Some(m) => r matches Err(AppError::BadRequest(x)) && x@ == m,
            None => match r {
                Ok(LineNeeds::ActiveIngredients(ids)) => item.order_type == OrderType::CustomMix && (item.mix matches Some(
                    m,
                ) && ids@ == m.items@.map_values(|i: MixItemInput| i.ingredient_id)),
                Ok(LineNeeds::ActiveScent(id)) => item.order_type == OrderType::SetPerfume && item.scent_id
                    == Some(id),
                Err(_) => false,
            },
        },
{
    if item.quantity < 1 || item.quantity > MAX_QUANTITY {
        return Err(AppError::BadRequest(String::from_str("quantity must be between 1 and 50")));
    }
    match item.order_type {
        OrderType::CustomMix => {
            if item.scent_id.is_some() {
                return Err(AppError::BadRequest(String::from_str("scent_id must not be set for a custom_mix line")));
            }
            match &item.mix {
                None => Err(AppError::BadRequest(String::from_str("a custom_mix line needs its blend"))),
                Some(m) => {
                    if blank(m.name.as_str()) {
                        return Err(AppError::BadRequest(String::from_str("every custom blend needs a name")));
                    }
                    if m.items.len() == 0 {
                        return Err(AppError::BadRequest(String::from_str(
                            "a custom blend needs at least one ingredient",
                        )));
                    }
                    let ids = ingredient_ids(&m.items);
                    proof {
                        assert(ids@ =~= m.items@.map_values(|i: MixItemInput| i.ingredient_id));
                    }
                    match check_ingredient_ids(&ids) {
                        Ok(()) => Ok(LineNeeds::ActiveIngredients(ids)),
                        Err(e) => Err(e),
                    }
                },
            }
        },
        OrderType::SetPerfume => {
            if item.mix.is_some() {
                return Err(AppError::BadRequest(String::from_str("mix must not be set for a set_perfume line")));
            }
            match item.scent_id {
                Some(id) => Ok(LineNeeds::ActiveScent(id)),
                None => Err(AppError::BadRequest(String::from_str("a set_perfume line needs a scent"))),
            }
        },
    }
}

/// A line is priced from the catalogue unless it carries an explicit override.
pub fn line_amount(override_amount: Option<Amount>, catalogue: Option<Amount>) -> (r: Option<Amount>)
    ensures
        r == match override_amount {
            Some(a) => Some(a),
            None => catalogue,
        },
{
    match override_amount {
        Some(a) => Some(a),
        None => catalogue,
    }
}

/// A line resolved and checked, ready to write.
#[derive(Debug)]
pub struct ResolvedLine {
    pub order_type: OrderType,
    pub size: BottleSize,
    pub quantity: i32,
    pub scent_id: Option<u128>,
    pub mix: Option<IntakeMixRequest>,
    pub amount: Option<Amount>,
    pub bundle_id: Option<u128>,
}

/// Why a line is refused once the catalogue has answered, if it is:
/// `active_ingredients` is how many of a custom blend's ingredients are active,
/// `scent_active` whether a set perfume's scent exists and is active.
pub open spec fn resolve_error(item: IntakeItemRequest, active_ingredients: i64, scent_active: bool) -> Option<Seq<char>> {
    if line_error(item) is Some {
        line_error(item)
    } else {
        match item.order_type {
            OrderType::CustomMix => {
                let m = item.mix.unwrap();
                if active_ingredients != m.items@.len() {
                    Some("one or more ingredients are invalid or inactive"@)
                } else if !amounts_positive(m.items@) {
                    Some("amount_ml must be positive"@)
                } else {
                    None
                }
            },
            OrderType::SetPerfume => if !scent_active {
                Some("scent_id is invalid or inactive"@)
            } else {
                None
            },
        }
    }
}

/// Validates one requested line against its shape and the catalogue's
/// answers, and resolves it into something writable. The checks run in the
/// order the form's fields do; the first failure is the answer.
pub fn resolve_line(item: IntakeItemRequest, active_ingredients: i64, scent_active: bool, bundle_id: Option<u128>) -> (r: Result<ResolvedLine, AppError>)
    ensures
        match resolve_error(item, active_ingredients, scent_active) {
            Some(m) => r matches Err(AppError::BadRequest(x)) && x@ == m,
            None => r matches Ok(l) && l.order_type == item.order_type && l.size == item.size && l.quantity
                == item.quantity && l.scent_id == item.scent_id && l.mix == item.mix && l.amount == item.amount
                && l.bundle_id == bundle_id,
        },
{
    match check_line(&item) {
        Ok(_) => {},
        Err(e) => return Err(e),
    }
    match item.order_type {
        OrderType::CustomMix => {
            match &item.mix {
                Some(m) => {
                    match check_active_count(active_ingredients, m.items.len()) {
                        Ok(()) => {},
                        Err(e) => return Err(e),
                    }
                    match check_amounts(&m.items) {
                        Ok(()) => {},
                        Err(e) => return Err(e),
                    }
                },
                None => {},
            }
        },
        OrderType::SetPerfume => {
            if !scent_active {
                return Err(AppError::BadRequest(String::from_str("scent_id is invalid or inactive")));
            }
        },
    }
    Ok(ResolvedLine {
        order_type: item.order_type,
        size: item.size,
        quantity: item.quantity,
        scent_id: item.scent_id,
        mix: item.mix,
        amount: item.amount,
        bundle_id,
    })
}

} // verus!
