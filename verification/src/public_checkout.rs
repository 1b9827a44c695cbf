//! The public share targets: a scent's public view (ingredient names and
//! prices, never the amounts) and the anonymous checkout from a share link.
//!
//! The checkout is the only place an anonymous caller can set money in motion,
//! so: the price is never taken from the request, an existing customer is
//! never modified, a purchase is not marketing consent, and it is refused
//! outright while Square is not live.

use vstd::prelude::*;
use crate::catalog::Scent;
use crate::error::AppError;
use crate::ident::{push_id_text, spec_id_text};
use crate::money::{spec_to_cents, to_cents, Amount};
use crate::order::BottleSize;
use crate::square::{CheckoutPush, DiscountPush, LineItemPush, SquareError};
use crate::text::{
    blank, has_char, is_blank, lowercase, push_str, spec_trim, take_chars, to_lowercase, to_uppercase, trim,
    uppercase, utf8_size, utf8_size_exceeds,
};

verus! {

/// The most bytes an address may take.
pub const MAX_EMAIL_BYTES: usize = 254;

/// The most characters of a buyer's name that are kept.
pub const MAX_NAME_CHARS: usize = 100;

/// A scent as the public sees it.
#[derive(Debug)]
pub struct PublicScent {
    pub id: u128,
    pub name: String,
    /// Ingredient names only — no amounts.
    pub notes: Vec<String>,
    pub price_oz3_4: Option<Amount>,
    pub price_oz1_7: Option<Amount>,
    pub price_roller: Option<Amount>,
    pub price_spray: Option<Amount>,
}

#[derive(Debug)]
pub struct PublicCheckoutRequest {
    pub scent_id: u128,
    pub size: BottleSize,
    pub email: String,
    pub name: Option<String>,
    /// The referral code from the share link.
    pub referral_code: Option<String>,
    /// A coupon the buyer already holds.
    pub coupon_code: Option<String>,
}

#[derive(Debug)]
pub struct PublicCheckoutResponse {
    pub checkout_url: String,
    /// What came off, so the page can say so.
    pub discount_cents: i64,
    pub total_cents: i64,
}

/// The public view of an active scent: its name, its notes and its prices.
pub fn public_scent(scent: Scent, notes: Vec<String>) -> (r: PublicScent)
    ensures
        r.id == scent.id,
        r.name == scent.name,
        r.notes == notes,
        r.price_oz3_4 == scent.price_oz3_4,
        r.price_oz1_7 == scent.price_oz1_7,
        r.price_roller == scent.price_roller,
        r.price_spray == scent.price_spray,
{
    PublicScent {
        id: scent.id,
        name: scent.name,
        notes,
        price_oz3_4: scent.price_oz3_4,
        price_oz1_7: scent.price_oz1_7,
        price_roller: scent.price_roller,
        price_spray: scent.price_spray,
    }
}

/// The shallow shape check, plus a bound on the length in bytes.
pub open spec fn buyer_email_ok(e: Seq<char>) -> bool {
    utf8_size(e) <= MAX_EMAIL_BYTES && has_char(e, '@') && e[0] != '@' && e.last() != '@'
}

/// The buyer's address, trimmed and lower-cased.
pub fn checkout_email(raw: &str) -> (r: Result<String, AppError>)
    ensures
        buyer_email_ok(lowercase(spec_trim(raw@))) ==> (r matches Ok(e) && e@ == lowercase(spec_trim(raw@))),
        !buyer_email_ok(lowercase(spec_trim(raw@))) ==> (r matches Err(AppError::BadRequest(m)) && m@
            == "a valid email is required"@),
{
    let email = to_lowercase(trim(raw));
    let n = email.unicode_len();
    if utf8_size_exceeds(email.as_str(), MAX_EMAIL_BYTES) || !crate::text::contains_char(email.as_str(), '@')
        || email.as_str().get_char(0) == '@' || email.as_str().get_char(n - 1) == '@' {
        return Err(AppError::BadRequest(String::from_str("a valid email is required")));
    }
    Ok(email)
}

/// The name a new customer record gets: trimmed, dropped when blank, and cut
/// to 100 characters so a long string cannot be stuffed through to Square.
pub open spec fn kept_name(name: Option<String>, r: Option<String>) -> bool {
    match name {
        Some(n) => if is_blank(n@) {
            r is None
        } else {
            r matches Some(x) && x@ == if spec_trim(n@).len() <= MAX_NAME_CHARS {
                spec_trim(n@)
            } else {
                spec_trim(n@).take(MAX_NAME_CHARS as int)
            }
        },
        None => r is None,
    }
}

pub fn buyer_name(name: &Option<String>) -> (r: Option<String>)
    ensures
        kept_name(*name, r),
{
    match name {
        Some(n) => {
            let t = trim(n.as_str());
            if t.unicode_len() == 0 {
                None
            } else {
                Some(take_chars(t, MAX_NAME_CHARS))
            }
        },
        None => None,
    }
}

/// The price charged, in cents, read from the catalogue for the size asked
/// for. A size with no price, or a zero price, is not for sale; a price that
/// cannot be charged is the catalogue's fault.
pub fn sale_cents(price: Option<Amount>, scent_id: u128) -> (r: Result<i64, AppError>)
    requires
        price matches Some(p) ==> crate::checkout::convertible(p),
    ensures
        match price {
            None => r matches Err(AppError::BadRequest(m)) && m@ == "that size is not available for this scent"@,
            Some(p) => match spec_to_cents(p) {
                None => r matches Err(AppError::Internal(m)) && m@ == "scent "@ + spec_id_text(scent_id)
                    + " has an invalid price"@,
                Some(c) => if c == 0 {
                    r matches Err(AppError::BadRequest(m)) && m@ == "that size is not available for this scent"@
                } else {
                    r == Ok::<i64, AppError>(c)
                },
            },
        },
{
    let p = match price {
        Some(p) => p,
        None => return Err(AppError::BadRequest(String::from_str("that size is not available for this scent"))),
    };
    let cents = match to_cents(p) {
        Some(c) => c,
        None => {
            let mut m = String::new();
            push_str(&mut m, "scent ");
            push_id_text(&mut m, scent_id);
            push_str(&mut m, " has an invalid price");
            return Err(AppError::Internal(m));
        },
    };
    if cents == 0 {
        return Err(AppError::BadRequest(String::from_str("that size is not available for this scent")));
    }
    Ok(cents)
}

/// A paying customer is never sent to a mock payment link.
pub fn require_live(live: bool) -> (r: Result<(), AppError>)
    ensures
        live ==> r is Ok,
        !live ==> (r matches Err(AppError::Unavailable(m)) && m@ == "online checkout is not available right now"@),
{
    if live {
        Ok(())
    } else {
        Err(AppError::Unavailable(String::from_str("online checkout is not available right now")))
    }
}

/// How the bottle reads on the cart: the scent and the size.
pub fn line_name(scent_name: &str, size: BottleSize) -> (r: String)
    ensures
        r@ == scent_name@ + " ("@ + size.spec_label() + ")"@,
{
    let mut s = String::new();
    push_str(&mut s, scent_name);
    push_str(&mut s, " (");
    push_str(&mut s, size.label());
    push_str(&mut s, ")");
    s
}

/// A coupon is looked up only when a code besides whitespace was given.
pub fn coupon_given(code: Option<&str>) -> (r: bool)
    ensures
        r == match code {
            Some(c) => !is_blank(c@),
            None => false,
        },
{
    match code {
        Some(c) => !blank(c),
        None => false,
    }
}

/// The referral code as stored on the cart: trimmed and upper-cased.
pub fn stored_referral_code(code: Option<&str>) -> (r: Option<String>)
    ensures
        match code {
            Some(c) => r matches Some(x) && x@ == uppercase(spec_trim(c@)),
            None => r is None,
        },
{
    match code {
        Some(c) => Some(to_uppercase(trim(c))),
        None => None,
    }
}

/// The note staff see on a cart that arrived from a share link.
pub fn share_note() -> (r: &'static str)
    ensures
        r@ == "Online order from a share link — to be crafted by staff"@,
{
    "Online order from a share link — to be crafted by staff"
}

/// The request that hands a share-link cart to Square: one bottle at the
/// catalogue price, the reduction (if any) as a single named discount, and a
/// thank-you page to come back to.
pub fn public_push(
    cart_id: u128,
    idempotency_key: String,
    currency: String,
    buyer_email: String,
    line: String,
    cents: i64,
    discount_cents: i64,
    coupon_used: bool,
    site: &str,
    note: Option<String>,
) -> (p: CheckoutPush)
    ensures
        p.cart_id == cart_id,
        p.idempotency_key == idempotency_key,
        p.currency == currency,
        p.buyer_email == Some(buyer_email),
        p.line_items@.len() == 1,
        p.line_items@[0].name == line,
        p.line_items@[0].quantity == 1,
        p.line_items@[0].unit_amount_cents == cents,
        discount_cents > 0 ==> p.discounts@.len() == 1 && p.discounts@[0].amount_cents == discount_cents
            && p.discounts@[0].name@ == if coupon_used { "Coupon"@ } else { "Referral discount"@ },
        discount_cents <= 0 ==> p.discounts@.len() == 0,
        p.redirect_url matches Some(u) && u@ == site@ + "/thanks"@,
        p.note == note,
{
    let mut lines: Vec<LineItemPush> = Vec::new();
    lines.push(LineItemPush { name: line, quantity: 1, unit_amount_cents: cents });
    let mut discounts: Vec<DiscountPush> = Vec::new();
    if discount_cents > 0 {
        let name = if coupon_used { String::from_str("Coupon") } else { String::from_str("Referral discount") };
        discounts.push(DiscountPush { name, amount_cents: discount_cents });
    }
    let mut redirect = String::new();
    push_str(&mut redirect, site);
    push_str(&mut redirect, "/thanks");
    CheckoutPush {
        cart_id,
        idempotency_key,
        currency,
        buyer_email: Some(buyer_email),
        line_items: lines,
        discounts,
        redirect_url: Some(redirect),
        note,
    }
}

/// Square's error text never reaches an anonymous caller: it can carry account
/// and configuration detail.
pub fn checkout_unavailable(e: &SquareError) -> (r: AppError)
    ensures
        r matches AppError::Unavailable(m) && m@ == "could not start checkout — please try again"@,
{
    AppError::Unavailable(String::from_str("could not start checkout — please try again"))
}

/// The public share page of a scent.
pub fn share_url(site: &str, scent_id: u128) -> (r: String)
    ensures
        r@ == site@ + "/s/"@ + spec_id_text(scent_id),
{
    let mut s = String::new();
    push_str(&mut s, site);
    push_str(&mut s, "/s/");
    push_id_text(&mut s, scent_id);
    s
}


/// The first step of a share-link checkout, before anything is read: the
/// caller's rate limit (`allowed`), then the buyer's address, then the name a
/// new record would get. Nothing is read or written for a refused request.
pub fn public_checkout_start(allowed: bool, raw_email: &str, name: &Option<String>) -> (r: Result<(String, Option<String>), AppError>)
    ensures
        !allowed ==> (r matches Err(AppError::TooManyRequests(m)) && m@
            == "too many checkout attempts — please wait a minute and try again"@),
        allowed && !buyer_email_ok(lowercase(spec_trim(raw_email@))) ==> (r matches Err(AppError::BadRequest(m)) && m@
            == "a valid email is required"@),
        allowed && buyer_email_ok(lowercase(spec_trim(raw_email@))) ==> (r matches Ok((e, n)) && e@
            == lowercase(spec_trim(raw_email@)) && kept_name(*name, n)),
{
    if !allowed {
        return Err(AppError::TooManyRequests(
            String::from_str("too many checkout attempts — please wait a minute and try again"),
        ));
    }
    let email = match checkout_email(raw_email) {
        Ok(e) => e,
        Err(e) => return Err(e),
    };
    Ok((email, buyer_name(name)))
}

/// What a share-link checkout writes once every check has passed: the buyer,
/// the scent, the price in cents read from the catalogue and the cart line.
#[derive(Debug)]
pub struct PublicSale {
    pub email: String,
    pub name: Option<String>,
    pub scent_id: u128,
    pub cents: i64,
    pub line: String,
}

/// The second step, once the scent (active ones only: its id and name) and
/// the catalogue price for the size have been read. The scent must exist, the
/// size must be for sale at a chargeable price, and Square must be live; only
/// then is there a sale to write, so a refused checkout persists nothing.
pub fn public_checkout_sale(
    email: String,
    name: Option<String>,
    scent: Option<(u128, String)>,
    size: BottleSize,
    price: Option<Amount>,
    live: bool,
) -> (r: Result<PublicSale, AppError>)
    requires
        price matches Some(p) ==> crate::checkout::convertible(p),
    ensures
        match scent {
            None => r matches Err(AppError::NotFound(m)) && m@ == "scent not found"@,
            Some((id, scent_name)) => match price {
                None => r matches Err(AppError::BadRequest(m)) && m@ == "that size is not available for this scent"@,
                Some(p) => match spec_to_cents(p) {
                    None => r matches Err(AppError::Internal(m)) && m@ == "scent "@ + spec_id_text(id)
                        + " has an invalid price"@,
                    Some(c) => if c == 0 {
                        r matches Err(AppError::BadRequest(m)) && m@ == "that size is not available for this scent"@
                    } else if !live {
                        r matches Err(AppError::Unavailable(m)) && m@ == "online checkout is not available right now"@
                    } else {
                        r matches Ok(sale) && sale.email == email && sale.name == name && sale.scent_id == id
                            && sale.cents == c && sale.line@ == scent_name@ + " ("@ + size.spec_label() + ")"@
                    },
                },
            },
        },
{
    let (scent_id, scent_name) = match scent {
        Some(s) => s,
        None => return Err(AppError::NotFound(String::from_str("scent not found"))),
    };
    let cents = match sale_cents(price, scent_id) {
        Ok(c) => c,
        Err(e) => return Err(e),
    };
    match require_live(live) {
        Ok(()) => {},
        Err(e) => return Err(e),
    }
    let line = line_name(scent_name.as_str(), size);
    Ok(PublicSale { email, name, scent_id, cents, line })
}

} // verus!
