//! What the live Square client sends: the configuration it starts from, the
//! payment-link request for a cart, and the customer search and upsert bodies.

use vstd::prelude::*;
use crate::ident::{push_id_text, spec_id_text};
use crate::json::Json;
use crate::square::{CheckoutPush, CustomerPush, DiscountPush, LineItemPush, SquareConfig, SquareEnv};
use crate::text::{blank, int_text, is_blank, push_i64, push_str, str_eq};

verus! {

/// A setting counts only when it holds something besides whitespace.
pub open spec fn present(v: Option<String>) -> bool {
    v matches Some(s) && !is_blank(s@)
}

fn keep_present(v: Option<String>) -> (r: Option<String>)
    ensures
        present(v) ==> r == v,
        !present(v) ==> r is None,
{
    match v {
        Some(s) => if blank(s.as_str()) { None } else { Some(s) },
        None => None,
    }
}

/// `production` or `prod` selects production; anything else, or nothing, is
/// the sandbox.
pub open spec fn spec_env(name: Option<Seq<char>>) -> SquareEnv {
    match name {
        Some(n) => if n == "production"@ || n == "prod"@ { SquareEnv::Production } else { SquareEnv::Sandbox },
        None => SquareEnv::Sandbox,
    }
}

pub fn env_from(name: Option<&str>) -> (r: SquareEnv)
    ensures
        r == spec_env(match name {
            Some(n) => Some(n@),
            None => None,
        }),
{
    match name {
        Some(n) => if str_eq(n, "production") || str_eq(n, "prod") {
            SquareEnv::Production
        } else {
            SquareEnv::Sandbox
        },
        None => SquareEnv::Sandbox,
    }
}

/// The live client's configuration: only when both the access token and the
/// location are set. Without either, the in-process mock is used and no real
/// payment is taken.
pub fn square_config(token: Option<String>, location: Option<String>, env: Option<&str>, redirect_url: Option<String>) -> (r: Option<SquareConfig>)
    ensures
        (present(token) && present(location)) <==> r is Some,
        r matches Some(c) ==> Some(c.access_token) == token && Some(c.location_id) == location && c.env == spec_env(
            match env {
                Some(n) => Some(n@),
                None => None,
            },
        ) && (present(redirect_url) ==> c.redirect_url == redirect_url) && (!present(redirect_url)
            ==> c.redirect_url is None),
{
    let token = keep_present(token);
    let location = keep_present(location);
    let env = env_from(env);
    let redirect_url = keep_present(redirect_url);
    match (token, location) {
        (Some(access_token), Some(location_id)) => Some(SquareConfig { access_token, location_id, env, redirect_url }),
        _ => None,
    }
}

fn text(s: &str) -> (j: Json)
    ensures
        j matches Json::String(x) && x@ == s@,
{
    Json::String(String::from_str(s))
}

fn member(key: &str, value: Json) -> (m: (String, Json))
    ensures
        m.0@ == key@,
        m.1 == value,
{
    (String::from_str(key), value)
}

/// The members of an object, if it is one.
pub open spec fn members(j: Json) -> Seq<(String, Json)> {
    match j {
        Json::Object(m) => m@,
        _ => Seq::empty(),
    }
}

/// The text of a string value, if it is one.
pub open spec fn string_of(j: Json) -> Option<Seq<char>> {
    match j {
        Json::String(s) => Some(s@),
        _ => None,
    }
}

/// One line of the payment link's order: the name, the quantity as decimal
/// text (Square wants it as a string) and the unit price in cents.
pub open spec fn line_json_ok(j: Json, li: LineItemPush, currency: Seq<char>) -> bool {
    let m = members(j);
    let money = members(m[2].1);
    &&& j is Object && m.len() == 3
    &&& m[0].0@ == "name"@ && string_of(m[0].1) == Some(li.name@)
    &&& m[1].0@ == "quantity"@ && string_of(m[1].1) == Some(int_text(li.quantity as int))
    &&& m[2].0@ == "base_price_money"@ && m[2].1 is Object && money.len() == 2
    &&& money[0].0@ == "amount"@ && money[0].1 == Json::Number(Some(li.unit_amount_cents))
    &&& money[1].0@ == "currency"@ && string_of(money[1].1) == Some(currency)
}

fn line_json(li: &LineItemPush, currency: &str) -> (j: Json)
    ensures
        line_json_ok(j, *li, currency@),
{
    let mut q = String::new();
    push_i64(&mut q, li.quantity as i64);
    let mut money: Vec<(String, Json)> = Vec::new();
    money.push(member("amount", Json::Number(Some(li.unit_amount_cents))));
    money.push(member("currency", text(currency)));
    let mut m: Vec<(String, Json)> = Vec::new();
    m.push(member("name", Json::String(li.name.clone())));
    m.push(member("quantity", Json::String(q)));
    m.push(member("base_price_money", Json::Object(money)));
    Json::Object(m)
}

/// One discount on the payment link's order: a fixed amount taken off the
/// whole order, under the discount's name, so that the buyer is charged net.
pub open spec fn discount_json_ok(j: Json, d: DiscountPush, currency: Seq<char>) -> bool {
    let m = members(j);
    let money = members(m[2].1);
    &&& j is Object && m.len() == 4
    &&& m[0].0@ == "name"@ && string_of(m[0].1) == Some(d.name@)
    &&& m[1].0@ == "type"@ && string_of(m[1].1) == Some("FIXED_AMOUNT"@)
    &&& m[2].0@ == "amount_money"@ && m[2].1 is Object && money.len() == 2
    &&& money[0].0@ == "amount"@ && money[0].1 == Json::Number(Some(d.amount_cents))
    &&& money[1].0@ == "currency"@ && string_of(money[1].1) == Some(currency)
    &&& m[3].0@ == "scope"@ && string_of(m[3].1) == Some("ORDER"@)
}

fn discount_json(d: &DiscountPush, currency: &str) -> (j: Json)
    ensures
        discount_json_ok(j, *d, currency@),
{
    let mut money: Vec<(String, Json)> = Vec::new();
    money.push(member("amount", Json::Number(Some(d.amount_cents))));
    money.push(member("currency", text(currency)));
    let mut m: Vec<(String, Json)> = Vec::new();
    m.push(member("name", Json::String(d.name.clone())));
    m.push(member("type", text("FIXED_AMOUNT")));
    m.push(member("amount_money", Json::Object(money)));
    m.push(member("scope", text("ORDER")));
    Json::Object(m)
}

/// The redirect a link uses: the cart's own, else the configured default.
pub open spec fn chosen_redirect(push: CheckoutPush, default_redirect: Option<String>) -> Option<String> {
    match push.redirect_url {
        Some(u) => Some(u),
        None => default_redirect,
    }
}

/// The payment-link request for a cart: the idempotency key (so a retried
/// create returns the first link), the order at the configured location
/// referencing our cart id, each line, each discount (when there are any, so
/// that Square charges the buyer net of them), the note if any, then the
/// redirect options when a redirect is known and the buyer's email when one is.
pub fn payment_link_body(push: &CheckoutPush, location_id: &str, default_redirect: &Option<String>) -> (b: Json)
    ensures
        ({
            let top = members(b);
            let order = members(top[1].1);
            let lines = match order[2].1 {
                Json::Array(v) => v@,
                _ => Seq::empty(),
            };
            let discounts = match order[3].1 {
                Json::Array(v) => v@,
                _ => Seq::empty(),
            };
            let has_discounts: int = if push.discounts@.len() > 0 { 1 } else { 0 };
            let redirect = chosen_redirect(*push, *default_redirect);
            let extra: int = if redirect is Some { 1 } else { 0 };
            &&& b is Object
            &&& top.len() == 2 + extra + if push.buyer_email is Some { 1int } else { 0int }
            &&& top[0].0@ == "idempotency_key"@ && string_of(top[0].1) == Some(push.idempotency_key@)
            &&& top[1].0@ == "order"@ && top[1].1 is Object
            &&& order.len() == 3 + has_discounts + if push.note is Some { 1int } else { 0int }
            &&& order[0].0@ == "location_id"@ && string_of(order[0].1) == Some(location_id@)
            &&& order[1].0@ == "reference_id"@ && string_of(order[1].1) == Some(spec_id_text(push.cart_id))
            &&& order[2].0@ == "line_items"@ && order[2].1 is Array
            &&& lines.len() == push.line_items@.len()
            &&& forall|i: int| 0 <= i < lines.len() ==> line_json_ok(#[trigger] lines[i], push.line_items@[i], push.currency@)
            &&& (has_discounts == 1 ==> {
                &&& order[3].0@ == "discounts"@ && order[3].1 is Array
                &&& discounts.len() == push.discounts@.len()
                &&& forall|i: int| 0 <= i < discounts.len()
                    ==> discount_json_ok(#[trigger] discounts[i], push.discounts@[i], push.currency@)
            })
            &&& (push.note matches Some(n) ==> order[3 + has_discounts].0@ == "note"@
                && string_of(order[3 + has_discounts].1) == Some(n@))
            &&& (redirect matches Some(u) ==> {
                let opts = members(top[2].1);
                &&& top[2].0@ == "checkout_options"@ && top[2].1 is Object && opts.len() == 2
                &&& opts[0].0@ == "redirect_url"@ && string_of(opts[0].1) == Some(u@)
                &&& opts[1].0@ == "ask_for_shipping_address"@ && opts[1].1 == Json::Bool(false)
            })
            &&& (push.buyer_email matches Some(e) ==> {
                let pre = members(top[2 + extra].1);
                &&& top[2 + extra].0@ == "pre_populated_data"@ && top[2 + extra].1 is Object && pre.len() == 1
                &&& pre[0].0@ == "buyer_email"@ && string_of(pre[0].1) == Some(e@)
            })
        }),
{
    let mut lines: Vec<Json> = Vec::new();
    let mut i: usize = 0;
    while i < push.line_items.len()
        invariant
            i <= push.line_items@.len(),
            lines@.len() == i,
            forall|k: int| 0 <= k < i ==> line_json_ok(#[trigger] lines@[k], push.line_items@[k], push.currency@),
        decreases push.line_items@.len() - i,
    {
        lines.push(line_json(&push.line_items[i], push.currency.as_str()));
        i = i + 1;
    }
    let mut discounts: Vec<Json> = Vec::new();
    let mut k: usize = 0;
    while k < push.discounts.len()
        invariant
            k <= push.discounts@.len(),
            discounts@.len() == k,
            forall|j: int| 0 <= j < k ==> discount_json_ok(#[trigger] discounts@[j], push.discounts@[j], push.currency@),
        decreases push.discounts@.len() - k,
    {
        discounts.push(discount_json(&push.discounts[k], push.currency.as_str()));
        k = k + 1;
    }
    let mut reference = String::new();
    push_id_text(&mut reference, push.cart_id);
    let mut order: Vec<(String, Json)> = Vec::new();
    order.push(member("location_id", text(location_id)));
    order.push(member("reference_id", Json::String(reference)));
    order.push(member("line_items", Json::Array(lines)));
    if push.discounts.len() > 0 {
        order.push(member("discounts", Json::Array(discounts)));
    }
    match &push.note {
        Some(n) => order.push(member("note", Json::String(n.clone()))),
        None => {},
    }
    let mut top: Vec<(String, Json)> = Vec::new();
    top.push(member("idempotency_key", Json::String(push.idempotency_key.clone())));
    top.push(member("order", Json::Object(order)));
    let redirect: Option<&String> = match &push.redirect_url {
        Some(u) => Some(u),
        None => match default_redirect {
            Some(u) => Some(u),
            None => None,
        },
    };
    match redirect {
        Some(u) => {
            let mut opts: Vec<(String, Json)> = Vec::new();
            opts.push(member("redirect_url", Json::String(u.clone())));
            opts.push(member("ask_for_shipping_address", Json::Bool(false)));
            top.push(member("checkout_options", Json::Object(opts)));
        },
        None => {},
    }
    match &push.buyer_email {
        Some(e) => {
            let mut pre: Vec<(String, Json)> = Vec::new();
            pre.push(member("buyer_email", Json::String(e.clone())));
            top.push(member("pre_populated_data", Json::Object(pre)));
        },
        None => {},
    }
    Json::Object(top)
}

/// The search for an existing customer by exact email: at most one result.
pub fn customer_search_body(email: &str) -> (b: Json)
    ensures
        ({
            let top = members(b);
            let query = members(top[1].1);
            let filter = members(query[0].1);
            let addr = members(filter[0].1);
            &&& b is Object && top.len() == 2
            &&& top[0].0@ == "limit"@ && top[0].1 == Json::Number(Some(1i64))
            &&& top[1].0@ == "query"@ && top[1].1 is Object && query.len() == 1
            &&& query[0].0@ == "filter"@ && query[0].1 is Object && filter.len() == 1
            &&& filter[0].0@ == "email_address"@ && filter[0].1 is Object && addr.len() == 1
            &&& addr[0].0@ == "exact"@ && string_of(addr[0].1) == Some(email@)
        }),
{
    let mut addr: Vec<(String, Json)> = Vec::new();
    addr.push(member("exact", text(email)));
    let mut filter: Vec<(String, Json)> = Vec::new();
    filter.push(member("email_address", Json::Object(addr)));
    let mut query: Vec<(String, Json)> = Vec::new();
    query.push(member("filter", Json::Object(filter)));
    let mut top: Vec<(String, Json)> = Vec::new();
    top.push(member("limit", Json::Number(Some(1i64))));
    top.push(member("query", Json::Object(query)));
    Json::Object(top)
}

/// The customer record sent to Square. Square models consent as its inverse,
/// `email_unsubscribed`: a customer who did not opt in is marked unsubscribed,
/// or Square Marketing would mail them. A create also carries our id as its
/// idempotency key.
pub fn customer_body(c: &CustomerPush, create: bool) -> (b: Json)
    ensures
        ({
            let top = members(b);
            let prefs = members(top[2].1);
            let named: int = if c.name is Some { 1 } else { 0 };
            &&& b is Object
            &&& top.len() == 3 + named + if create { 1int } else { 0int }
            &&& top[0].0@ == "email_address"@ && string_of(top[0].1) == Some(c.email@)
            &&& top[1].0@ == "reference_id"@ && string_of(top[1].1) == Some(spec_id_text(c.id))
            &&& top[2].0@ == "preferences"@ && top[2].1 is Object && prefs.len() == 1
            &&& prefs[0].0@ == "email_unsubscribed"@ && prefs[0].1 == Json::Bool(!c.marketing_consent)
            &&& (c.name matches Some(n) ==> top[3].0@ == "given_name"@ && string_of(top[3].1) == Some(n@))
            &&& (create ==> top[3 + named].0@ == "idempotency_key"@ && string_of(top[3 + named].1) == Some(
                spec_id_text(c.id),
            ))
        }),
{
    let mut reference = String::new();
    push_id_text(&mut reference, c.id);
    let mut prefs: Vec<(String, Json)> = Vec::new();
    prefs.push(member("email_unsubscribed", Json::Bool(!c.marketing_consent)));
    let mut top: Vec<(String, Json)> = Vec::new();
    top.push(member("email_address", Json::String(c.email.clone())));
    top.push(member("reference_id", Json::String(reference)));
    top.push(member("preferences", Json::Object(prefs)));
    match &c.name {
        Some(n) => top.push(member("given_name", Json::String(n.clone()))),
        None => {},
    }
    if create {
        let mut key = String::new();
        push_id_text(&mut key, c.id);
        top.push(member("idempotency_key", Json::String(key)));
    }
    Json::Object(top)
}

/// Where the customer record goes: the existing customer, or a new one.
pub fn customer_path(existing: Option<&str>) -> (r: String)
    ensures
        r@ == match existing {
            Some(id) => "/v2/customers/"@ + id@,
            None => "/v2/customers"@,
        },
{
    let mut s = String::new();
    push_str(&mut s, "/v2/customers");
    match existing {
        Some(id) => {
            push_str(&mut s, "/");
            push_str(&mut s, id);
            proof {
                assert(s@ =~= "/v2/customers/"@ + id@) by {
                    reveal_strlit("/v2/customers");
                    reveal_strlit("/v2/customers/");
                    reveal_strlit("/");
                }
            }
        },
        None => {},
    }
    s
}

} // verus!
