//! Carts and checkout: building a cart from a customer's orders and ad-hoc
//! lines, and deciding what a checkout request does. Checkout is the only place
//! money is set in motion, and it happens entirely on Square's side.

use vstd::prelude::*;
use crate::cart::{Cart, CartItem, CartStatus};
use crate::error::{bad_request, conflict, AppError};
use crate::ident::{push_amount_text, push_id_text, spec_amount_text, spec_id_text};
use crate::money::{format_cents, spec_format_cents, spec_to_cents, to_cents, Amount};
use crate::order::Order;
use crate::square::{CheckoutPush, LineItemPush, RemotePayment, SquareError};
use crate::text::{decimal, push_str, spec_trim, trim};

verus! {

/// Cap on lines per cart. Square accepts far more; this is a guard against a
/// runaway client, not a business rule.
pub const MAX_CART_ITEMS: usize = 50;

/// Default quantity of an ad-hoc line.
pub fn one() -> (r: i32)
    ensures
        r == 1,
{
    1
}

/// Default kind of an ad-hoc line.
pub fn other_kind() -> (r: String)
    ensures
        r@ == "other"@,
{
    String::from_str("other")
}

/// An ad-hoc line: money that isn't a bottle. Event deposits, rush fees, and
/// the multi-day hotel line from the booking terms all arrive this way.
#[derive(Debug)]
pub struct AdHocItemInput {
    pub name: String,
    pub quantity: i32,
    /// Entered as a decimal (what the operator types); converted to cents here.
    pub unit_amount: Amount,
    /// `event_deposit`, `fee`, or `other`: what this line *is*.
    pub kind: String,
}

/// A line resolved and priced, ready to write.
#[derive(Debug)]
pub struct PlannedLine {
    pub order_id: Option<u128>,
    pub name: String,
    pub quantity: i32,
    pub unit_amount_cents: i64,
    pub kind: String,
}

impl PlannedLine {
    pub open spec fn total(self) -> int {
        self.unit_amount_cents * self.quantity
    }
}

/// A cart needs at least one line and at most [`MAX_CART_ITEMS`].
pub fn check_cart_size(order_count: usize, item_count: usize) -> (r: Result<(), AppError>)
    ensures
        order_count == 0 && item_count == 0 ==> (r matches Err(e) && e is BadRequest && e.message()
            == "a cart needs at least one line"@),
        !(order_count == 0 && item_count == 0) && order_count + item_count > MAX_CART_ITEMS ==> (r matches Err(e)
            && e is BadRequest && e.message() == "a cart is limited to 50 lines"@),
        !(order_count == 0 && item_count == 0) && order_count + item_count <= MAX_CART_ITEMS ==> r is Ok,
{
    if order_count == 0 && item_count == 0 {
        return Err(bad_request("a cart needs at least one line"));
    }
    if order_count > MAX_CART_ITEMS || item_count > MAX_CART_ITEMS - order_count {
        return Err(bad_request("a cart is limited to 50 lines"));
    }
    Ok(())
}

/// Decimal amounts as the database holds them: convertible without overflow.
pub open spec fn convertible(a: Amount) -> bool {
    a.wf() && (a.negative || a.times_hundred_fits())
}

/// Why an order cannot be sold on this customer's cart, if it cannot.
pub open spec fn order_line_error(customer_id: u128, requested: u128, fetched: Option<Order>) -> Option<(bool, Seq<char>)> {
    let id = spec_id_text(requested);
    match fetched {
        None => Some((false, "order "@ + id + " not found"@)),
        Some(o) => if o.customer_id != customer_id {
            Some((true, "order "@ + id + " belongs to a different customer"@))
        } else {
            match o.amount {
                None => Some((true, "order "@ + id + " has no amount — price it before selling it"@)),
                Some(a) => if spec_to_cents(a) is None {
                    Some((true, "order "@ + id + " has an invalid amount: "@ + spec_amount_text(a)))
                } else {
                    None
                },
            }
        },
    }
}

/// The error a request fails with: `(true, m)` is a bad request, `(false, m)`
/// a missing order.
pub open spec fn error_is(e: AppError, expected: (bool, Seq<char>)) -> bool {
    &&& if expected.0 { e is BadRequest } else { e is NotFound }
    &&& e.message() == expected.1
}

/// The line an order becomes: `Type (size)`, one unit, priced from its amount.
pub open spec fn order_line_ok(l: PlannedLine, o: Order) -> bool {
    &&& l.order_id == Some(o.id)
    &&& l.name@ == o.order_type.spec_label() + " ("@ + o.size.spec_label() + ")"@
    &&& l.quantity == 1
    &&& l.unit_amount_cents == spec_to_cents(o.amount.unwrap()).unwrap()
    &&& l.kind@ == "blend"@
}

/// Price one requested order for the cart.
pub fn plan_order_line(customer_id: u128, requested: u128, fetched: &Option<Order>) -> (r: Result<PlannedLine, AppError>)
    requires
        fetched matches Some(o) && o.amount matches Some(a) ==> convertible(a),
    ensures
        match order_line_error(customer_id, requested, *fetched) {
            Some(expected) => r matches Err(e) && error_is(e, expected),
            None => r matches Ok(l) && order_line_ok(l, fetched.unwrap()),
        },
{
    let order = match fetched {
        Some(o) => o,
        None => {
            let mut m = String::new();
            push_str(&mut m, "order ");
            push_id_text(&mut m, requested);
            push_str(&mut m, " not found");
            return Err(AppError::NotFound(m));
        },
    };
    if order.customer_id != customer_id {
        let mut m = String::new();
        push_str(&mut m, "order ");
        push_id_text(&mut m, requested);
        push_str(&mut m, " belongs to a different customer");
        return Err(AppError::BadRequest(m));
    }
    let amount = match order.amount {
        Some(a) => a,
        None => {
            let mut m = String::new();
            push_str(&mut m, "order ");
            push_id_text(&mut m, requested);
            push_str(&mut m, " has no amount — price it before selling it");
            return Err(AppError::BadRequest(m));
        },
    };
    let cents = match to_cents(amount) {
        Some(c) => c,
        None => {
            let mut m = String::new();
            push_str(&mut m, "order ");
            push_id_text(&mut m, requested);
            push_str(&mut m, " has an invalid amount: ");
            push_amount_text(&mut m, amount);
            return Err(AppError::BadRequest(m));
        },
    };
    let mut name = String::new();
    push_str(&mut name, order.order_type.label());
    push_str(&mut name, " (");
    push_str(&mut name, order.size.label());
    push_str(&mut name, ")");
    Ok(PlannedLine {
        order_id: Some(order.id),
        name,
        quantity: 1,
        unit_amount_cents: cents,
        kind: String::from_str("blend"),
    })
}

/// The kinds an operator may set on an ad-hoc line. `blend` is excluded: that
/// kind belongs to lines carrying an order.
pub open spec fn is_ad_hoc_kind(kind: Seq<char>) -> bool {
    kind == "event_deposit"@ || kind == "fee"@ || kind == "other"@
}

/// Why an ad-hoc line is refused, if it is.
pub open spec fn ad_hoc_error(item: AdHocItemInput) -> Option<Seq<char>> {
    let name = spec_trim(item.name@);
    if name.len() == 0 {
        Some("line name is required"@)
    } else if item.quantity <= 0 {
        Some("quantity must be positive"@)
    } else if spec_to_cents(item.unit_amount) is None {
        Some("invalid amount for \""@ + name + "\": "@ + spec_amount_text(item.unit_amount))
    } else if !is_ad_hoc_kind(item.kind@) {
        Some("unknown line kind '"@ + item.kind@ + "' — expected one of event_deposit, fee, other"@)
    } else {
        None
    }
}

pub open spec fn ad_hoc_line_ok(l: PlannedLine, item: AdHocItemInput) -> bool {
    &&& l.order_id is None
    &&& l.name@ == spec_trim(item.name@)
    &&& l.quantity == item.quantity
    &&& l.unit_amount_cents == spec_to_cents(item.unit_amount).unwrap()
    &&& l.kind@ == item.kind@
}

fn kind_of(kind: &str) -> (r: bool)
    ensures
        r == is_ad_hoc_kind(kind@),
{
    crate::text::str_eq(kind, "event_deposit") || crate::text::str_eq(kind, "fee") || crate::text::str_eq(kind, "other")
}

/// Validate and price one ad-hoc line.
pub fn plan_ad_hoc_line(item: &AdHocItemInput) -> (r: Result<PlannedLine, AppError>)
    requires
        convertible(item.unit_amount),
    ensures
        match ad_hoc_error(*item) {
            Some(m) => r matches Err(e) && e is BadRequest && e.message() == m,
            None => r matches Ok(l) && ad_hoc_line_ok(l, *item),
        },
{
    let name = trim(item.name.as_str());
    if name.unicode_len() == 0 {
        return Err(bad_request("line name is required"));
    }
    if item.quantity <= 0 {
        return Err(bad_request("quantity must be positive"));
    }
    let cents = match to_cents(item.unit_amount) {
        Some(c) => c,
        None => {
            let mut m = String::new();
            push_str(&mut m, "invalid amount for \"");
            push_str(&mut m, name);
            push_str(&mut m, "\": ");
            push_amount_text(&mut m, item.unit_amount);
            return Err(AppError::BadRequest(m));
        },
    };
    if !kind_of(item.kind.as_str()) {
        let mut m = String::new();
        push_str(&mut m, "unknown line kind '");
        push_str(&mut m, item.kind.as_str());
        push_str(&mut m, "' — expected one of event_deposit, fee, other");
        return Err(AppError::BadRequest(m));
    }
    Ok(PlannedLine {
        order_id: None,
        name: String::from_str(name),
        quantity: item.quantity,
        unit_amount_cents: cents,
        kind: item.kind.clone(),
    })
}

/// Index of the first requested order that cannot be sold, or -1.
pub open spec fn first_bad_order(customer_id: u128, requested: Seq<u128>, fetched: Seq<Option<Order>>) -> int
    decreases requested.len(),
{
    if requested.len() == 0 {
        -1
    } else {
        let prev = first_bad_order(customer_id, requested.drop_last(), fetched);
        if prev >= 0 {
            prev
        } else if order_line_error(customer_id, requested.last(), fetched[requested.len() - 1]) is Some {
            requested.len() - 1
        } else {
            -1
        }
    }
}

/// Index of the first refused ad-hoc line, or -1.
pub open spec fn first_bad_item(items: Seq<AdHocItemInput>) -> int
    decreases items.len(),
{
    if items.len() == 0 {
        -1
    } else {
        let prev = first_bad_item(items.drop_last());
        if prev >= 0 {
            prev
        } else if ad_hoc_error(items.last()) is Some {
            items.len() - 1
        } else {
            -1
        }
    }
}

proof fn lemma_first_bad_order(customer_id: u128, requested: Seq<u128>, fetched: Seq<Option<Order>>)
    ensures
        -1 <= first_bad_order(customer_id, requested, fetched) < requested.len(),
        first_bad_order(customer_id, requested, fetched) >= 0 ==> order_line_error(
            customer_id,
            requested[first_bad_order(customer_id, requested, fetched)],
            fetched[first_bad_order(customer_id, requested, fetched)],
        ) is Some,
        forall|i: int|
            0 <= i < requested.len() && (first_bad_order(customer_id, requested, fetched) < 0 || i
                < first_bad_order(customer_id, requested, fetched)) ==> order_line_error(
                customer_id,
                #[trigger] requested[i],
                fetched[i],
            ) is None,
    decreases requested.len(),
{
    if requested.len() > 0 {
        let prev = requested.drop_last();
        lemma_first_bad_order(customer_id, prev, fetched);
        assert forall|i: int| 0 <= i < prev.len() implies #[trigger] requested[i] == prev[i] by {}
    }
}

proof fn lemma_first_bad_item(items: Seq<AdHocItemInput>)
    ensures
        -1 <= first_bad_item(items) < items.len(),
        first_bad_item(items) >= 0 ==> ad_hoc_error(items[first_bad_item(items)]) is Some,
        forall|i: int|
            0 <= i < items.len() && (first_bad_item(items) < 0 || i < first_bad_item(items)) ==> ad_hoc_error(
                #[trigger] items[i],
            ) is None,
    decreases items.len(),
{
    if items.len() > 0 {
        let prev = items.drop_last();
        lemma_first_bad_item(prev);
        assert forall|i: int| 0 <= i < prev.len() implies #[trigger] items[i] == prev[i] by {}
    }
}

/// Build every line of a new cart before anything is written, so a bad request
/// fails cleanly instead of half-writing a cart. Orders come first, in the
/// order requested, then the ad-hoc lines; the first refusal wins.
///
/// `fetched[i]` is what the database holds for `requested[i]`.
pub fn plan_cart(
    customer_id: u128,
    requested: &Vec<u128>,
    fetched: &Vec<Option<Order>>,
    items: &Vec<AdHocItemInput>,
) -> (r: Result<Vec<PlannedLine>, AppError>)
    requires
        fetched@.len() == requested@.len(),
        forall|i: int|
            0 <= i < fetched@.len() ==> (#[trigger] fetched@[i] matches Some(o) && o.amount matches Some(a)
                ==> convertible(a)),
        forall|i: int| 0 <= i < items@.len() ==> convertible(#[trigger] items@[i].unit_amount),
    ensures
        first_bad_order(customer_id, requested@, fetched@) >= 0 ==> ({
            let k = first_bad_order(customer_id, requested@, fetched@);
            r matches Err(e) && error_is(e, order_line_error(customer_id, requested@[k], fetched@[k]).unwrap())
        }),
        first_bad_order(customer_id, requested@, fetched@) < 0 && first_bad_item(items@) >= 0 ==> ({
            let k = first_bad_item(items@);
            r matches Err(e) && e is BadRequest && e.message() == ad_hoc_error(items@[k]).unwrap()
        }),
        first_bad_order(customer_id, requested@, fetched@) < 0 && first_bad_item(items@) < 0 ==> (r matches Ok(
            lines,
        ) && lines@.len() == requested@.len() + items@.len() && (forall|i: int|
            0 <= i < requested@.len() ==> order_line_ok(#[trigger] lines@[i], fetched@[i].unwrap())) && (forall|
            i: int,
        |
            0 <= i < items@.len() ==> ad_hoc_line_ok(#[trigger] lines@[requested@.len() + i], items@[i]))),
{
    proof {
        lemma_first_bad_order(customer_id, requested@, fetched@);
        lemma_first_bad_item(items@);
    }
    let mut lines: Vec<PlannedLine> = Vec::new();
    let mut i: usize = 0;
    while i < requested.len()
        invariant
            i <= requested@.len(),
            fetched@.len() == requested@.len(),
            forall|j: int|
                0 <= j < fetched@.len() ==> (#[trigger] fetched@[j] matches Some(o) && o.amount matches Some(a)
                    ==> convertible(a)),
            forall|j: int| 0 <= j < i ==> order_line_error(customer_id, #[trigger] requested@[j], fetched@[j]) is None,
            lines@.len() == i,
            forall|j: int| 0 <= j < i ==> order_line_ok(#[trigger] lines@[j], fetched@[j].unwrap()),
            -1 <= first_bad_order(customer_id, requested@, fetched@) < requested@.len(),
            first_bad_order(customer_id, requested@, fetched@) >= 0 ==> order_line_error(
                customer_id,
                requested@[first_bad_order(customer_id, requested@, fetched@)],
                fetched@[first_bad_order(customer_id, requested@, fetched@)],
            ) is Some,
            forall|j: int|
                0 <= j < requested@.len() && (first_bad_order(customer_id, requested@, fetched@) < 0 || j
                    < first_bad_order(customer_id, requested@, fetched@)) ==> order_line_error(
                    customer_id,
                    #[trigger] requested@[j],
                    fetched@[j],
                ) is None,
        decreases requested@.len() - i,
    {
        match plan_order_line(customer_id, requested[i], &fetched[i]) {
            Ok(l) => lines.push(l),
            Err(e) => {
                proof {
                    let k = first_bad_order(customer_id, requested@, fetched@);
                    assert(k == i as int);
                }
                return Err(e);
            },
        }
        i = i + 1;
    }
    let n = requested.len();
    let mut j: usize = 0;
    while j < items.len()
        invariant
            j <= items@.len(),
            n == requested@.len(),
            fetched@.len() == requested@.len(),
            forall|x: int| 0 <= x < items@.len() ==> convertible(#[trigger] items@[x].unit_amount),
            first_bad_order(customer_id, requested@, fetched@) < 0,
            forall|x: int| 0 <= x < j ==> ad_hoc_error(#[trigger] items@[x]) is None,
            lines@.len() == n + j,
            forall|x: int| 0 <= x < n ==> order_line_ok(#[trigger] lines@[x], fetched@[x].unwrap()),
            forall|x: int| 0 <= x < j ==> ad_hoc_line_ok(#[trigger] lines@[n + x], items@[x]),
            -1 <= first_bad_item(items@) < items@.len(),
            first_bad_item(items@) >= 0 ==> ad_hoc_error(items@[first_bad_item(items@)]) is Some,
            forall|x: int|
                0 <= x < items@.len() && (first_bad_item(items@) < 0 || x < first_bad_item(items@)) ==> ad_hoc_error(
                    #[trigger] items@[x],
                ) is None,
        decreases items@.len() - j,
    {
        match plan_ad_hoc_line(&items[j]) {
            Ok(l) => {
                let ghost before = lines@;
                lines.push(l);
                proof {
                    assert forall|x: int| 0 <= x < j + 1 implies ad_hoc_line_ok(
                        #[trigger] lines@[n + x],
                        items@[x],
                    ) by {
                        if x < j {
                            assert(lines@[n + x] == before[n + x]);
                        }
                    }
                }
            },
            Err(e) => {
                proof {
                    assert(first_bad_item(items@) == j as int);
                }
                return Err(e);
            },
        }
        j = j + 1;
    }
    Ok(lines)
}

/// Sum of `unit * quantity` over the lines.
pub open spec fn lines_total(lines: Seq<PlannedLine>) -> int
    decreases lines.len(),
{
    if lines.len() == 0 { 0 } else { lines_total(lines.drop_last()) + lines.last().total() }
}

/// A cart charges, for each line, its unit amount times its quantity: one
/// line of 2 at 2500 is 5000, no lines are nothing, and the charge of two lists
/// of lines together is the sum of their charges.
pub proof fn lemma_lines_total_is_quantity_times_unit(a: Seq<PlannedLine>, b: Seq<PlannedLine>, l: PlannedLine)
    ensures
        lines_total(Seq::<PlannedLine>::empty()) == 0,
        lines_total(seq![l]) == l.unit_amount_cents * l.quantity,
        lines_total(a + b) == lines_total(a) + lines_total(b),
    decreases b.len(),
{
    assert(seq![l].drop_last() =~= Seq::<PlannedLine>::empty());
    if b.len() > 0 {
        lemma_lines_total_is_quantity_times_unit(a, b.drop_last(), l);
        assert((a + b).drop_last() =~= a + b.drop_last());
        assert((a + b).last() == b.last());
    } else {
        assert(a + b =~= a);
    }
}

/// Every running total of the cart fits in 64-bit cents.
pub open spec fn lines_total_fits(lines: Seq<PlannedLine>) -> bool {
    forall|k: int| 0 <= k <= lines.len() ==> i64::MIN <= #[trigger] lines_total(lines.take(k)) <= i64::MAX
}

/// What the cart charges: the sum of its lines.
pub fn cart_total(lines: &Vec<PlannedLine>) -> (r: i64)
    requires
        lines_total_fits(lines@),
        forall|i: int| 0 <= i < lines@.len() ==> i64::MIN <= (#[trigger] lines@[i]).total() <= i64::MAX,
    ensures
        r == lines_total(lines@),
{
    let mut total: i64 = 0;
    let mut i: usize = 0;
    while i < lines.len()
        invariant
            i <= lines@.len(),
            lines_total_fits(lines@),
            forall|x: int| 0 <= x < lines@.len() ==> i64::MIN <= (#[trigger] lines@[x]).total() <= i64::MAX,
            total == lines_total(lines@.take(i as int)),
        decreases lines@.len() - i,
    {
        let l = &lines[i];
        proof {
            assert(lines@.take(i + 1).drop_last() =~= lines@.take(i as int));
            assert(lines@.take(i + 1).last() == lines@[i as int]);
            assert(i64::MIN <= lines_total(lines@.take(i + 1)) <= i64::MAX);
        }
        let t = l.unit_amount_cents * (l.quantity as i64);
        total = total + t;
        i = i + 1;
    }
    proof {
        assert(lines@.take(lines@.len() as int) =~= lines@);
    }
    total
}

/// What a checkout request does before anything is sent.
pub enum CheckoutStart {
    /// Already sent and still awaiting payment: hand back the same link.
    /// Checkout is safe to press twice.
    AlreadySent { checkout_url: String, square_order_id: String },
    /// Send the cart to Square.
    Send,
}

/// Sum of the stored lines.
pub open spec fn items_total(items: Seq<CartItem>) -> int
    decreases items.len(),
{
    if items.len() == 0 { 0 } else { items_total(items.drop_last()) + items.last().spec_line_total() }
}

pub open spec fn items_total_fits(items: Seq<CartItem>) -> bool {
    &&& forall|k: int| 0 <= k <= items.len() ==> i64::MIN <= #[trigger] items_total(items.take(k)) <= i64::MAX
    &&& forall|i: int| 0 <= i < items.len() ==> i64::MIN <= (#[trigger] items[i]).spec_line_total() <= i64::MAX
}

/// The lines stored for a cart charge what was planned for it: stored items
/// with the planned quantities and unit amounts total exactly what the planned
/// lines total, which is what checkout compares the cart's total with. A
/// stored item likewise charges its unit amount times its quantity.
pub proof fn lemma_stored_items_total_the_planned_lines(lines: Seq<PlannedLine>, items: Seq<CartItem>, it: CartItem)
    requires
        lines.len() == items.len(),
        forall|i: int| 0 <= i < lines.len() ==> (#[trigger] items[i]).quantity == lines[i].quantity
            && items[i].unit_amount_cents == lines[i].unit_amount_cents,
    ensures
        items_total(items) == lines_total(lines),
        items_total(seq![it]) == it.unit_amount_cents * it.quantity,
    decreases lines.len(),
{
    assert(seq![it].drop_last() =~= Seq::<CartItem>::empty());
    assert(items_total(Seq::<CartItem>::empty()) == 0);
    assert(seq![it].last() == it);
    assert(items_total(seq![it]) == it.spec_line_total());
    if lines.len() > 0 {
        let dl = lines.drop_last();
        let di = items.drop_last();
        assert forall|i: int| 0 <= i < dl.len() implies (#[trigger] di[i]).quantity == dl[i].quantity
            && di[i].unit_amount_cents == dl[i].unit_amount_cents by {
            assert(di[i] == items[i] && dl[i] == lines[i]);
        }
        lemma_stored_items_total_the_planned_lines(dl, di, it);
        assert(items.last() == items[items.len() - 1]);
    }
}

fn sum_items(items: &Vec<CartItem>) -> (r: i64)
    requires
        items_total_fits(items@),
    ensures
        r == items_total(items@),
{
    let mut total: i64 = 0;
    let mut i: usize = 0;
    while i < items.len()
        invariant
            i <= items@.len(),
            items_total_fits(items@),
            total == items_total(items@.take(i as int)),
        decreases items@.len() - i,
    {
        proof {
            assert(items@.take(i + 1).drop_last() =~= items@.take(i as int));
            assert(items@.take(i + 1).last() == items@[i as int]);
            assert(i64::MIN <= items_total(items@.take(i + 1)) <= i64::MAX);
        }
        total = total + items[i].line_total_cents();
        i = i + 1;
    }
    proof {
        assert(items@.take(items@.len() as int) =~= items@);
    }
    total
}

/// A cart awaiting payment whose link was already issued.
pub open spec fn link_already_sent(cart: Cart) -> bool {
    cart.checkout_url is Some && cart.square_order_id is Some && cart.status == CartStatus::PendingPayment
}

/// Decide what a checkout request does:
/// - a cart awaiting payment that already has a link gets the same link back;
/// - only an open cart can be sent (409 otherwise);
/// - an empty cart is refused (400);
/// - a cart whose stored total disagrees with its lines is refused (409) —
///   this is the last point before a customer is charged. Only this last
///   check sums the lines, so only it needs their sum to fit.
pub fn checkout_start(cart: &Cart, items: &Vec<CartItem>) -> (r: Result<CheckoutStart, AppError>)
    requires
        link_already_sent(*cart) || cart.status != CartStatus::Open || items@.len() == 0 || items_total_fits(items@),
    ensures
        ({
            let sent = link_already_sent(*cart);
            if sent {
                r matches Ok(CheckoutStart::AlreadySent { checkout_url, square_order_id })
                    && checkout_url == cart.checkout_url.unwrap() && square_order_id
                    == cart.square_order_id.unwrap()
            } else if cart.status != CartStatus::Open {
                r matches Err(e) && e is Conflict && e.message() == "cart is "@ + cart.status.spec_debug_name()
                    + " and cannot be checked out again"@
            } else if items@.len() == 0 {
                r matches Err(e) && e is BadRequest && e.message() == "cart is empty"@
            } else if items_total(items@) != cart.total_cents {
                r matches Err(e) && e is Conflict && e.message()
                    == "cart total does not match its line items; rebuild the cart"@
            } else {
                r matches Ok(CheckoutStart::Send)
            }
        }),
{
    if let (Some(url), Some(order_id)) = (&cart.checkout_url, &cart.square_order_id) {
        if cart.status == CartStatus::PendingPayment {
            return Ok(CheckoutStart::AlreadySent { checkout_url: url.clone(), square_order_id: order_id.clone() });
        }
    }
    if !cart.status.is_open() {
        let mut m = String::new();
        push_str(&mut m, "cart is ");
        push_str(&mut m, cart.status.debug_name());
        push_str(&mut m, " and cannot be checked out again");
        return Err(AppError::Conflict(m));
    }
    if items.len() == 0 {
        return Err(bad_request("cart is empty"));
    }
    let line_sum = sum_items(items);
    if line_sum != cart.total_cents {
        return Err(conflict("cart total does not match its line items; rebuild the cart"));
    }
    Ok(CheckoutStart::Send)
}

/// The request that hands a cart to Square: every line as stored, the cart's
/// idempotency key (so a retried create returns the same link), the buyer's
/// email to pre-fill, and the cart's note.
pub fn checkout_push(cart: &Cart, items: &Vec<CartItem>, buyer_email: String) -> (p: CheckoutPush)
    ensures
        p.cart_id == cart.id,
        p.idempotency_key == cart.idempotency_key,
        p.currency == cart.currency,
        p.buyer_email == Some(buyer_email),
        p.line_items@.len() == items@.len(),
        forall|i: int|
            0 <= i < items@.len() ==> (#[trigger] p.line_items@[i]).name == items@[i].name
                && p.line_items@[i].quantity == items@[i].quantity && p.line_items@[i].unit_amount_cents
                == items@[i].unit_amount_cents,
        p.discounts@.len() == 0,
        p.redirect_url is None,
        p.note == cart.note,
{
    let mut lines: Vec<LineItemPush> = Vec::new();
    let mut i: usize = 0;
    while i < items.len()
        invariant
            i <= items@.len(),
            lines@.len() == i,
            forall|j: int|
                0 <= j < i ==> (#[trigger] lines@[j]).name == items@[j].name && lines@[j].quantity
                    == items@[j].quantity && lines@[j].unit_amount_cents == items@[j].unit_amount_cents,
        decreases items@.len() - i,
    {
        let it = &items[i];
        lines.push(LineItemPush { name: it.name.clone(), quantity: it.quantity, unit_amount_cents: it.unit_amount_cents });
        i = i + 1;
    }
    let note = match &cart.note {
        Some(n) => Some(n.clone()),
        None => None,
    };
    CheckoutPush {
        cart_id: cart.id,
        idempotency_key: cart.idempotency_key.clone(),
        currency: cart.currency.clone(),
        buyer_email: Some(buyer_email),
        line_items: lines,
        discounts: Vec::new(),
        redirect_url: None,
        note,
    }
}

/// A failed create: transient failures ask the operator to try again (503)
/// without burning the cart; anything else is Square refusing the cart (400).
pub fn checkout_failure(e: &SquareError) -> (r: AppError)
    ensures
        e.spec_retryable() ==> r is Unavailable && r.message() == "Square is unavailable: "@ + e.spec_message(),
        !e.spec_retryable() ==> r is BadRequest && r.message() == "Square rejected the checkout: "@
            + e.spec_message(),
{
    let mut m = String::new();
    if e.retryable() {
        push_str(&mut m, "Square is unavailable: ");
        let d = e.message();
        push_str(&mut m, d.as_str());
        AppError::Unavailable(m)
    } else {
        push_str(&mut m, "Square rejected the checkout: ");
        let d = e.message();
        push_str(&mut m, d.as_str());
        AppError::BadRequest(m)
    }
}

#[derive(Debug)]
pub struct CreateCartRequest {
    pub customer_id: u128,
    /// Existing orders to sell; each becomes a line priced from the order.
    pub order_ids: Vec<u128>,
    pub items: Vec<AdHocItemInput>,
    pub note: Option<String>,
}

#[derive(Debug)]
pub struct ListCartsQuery {
    pub status: Option<String>,
    pub customer_id: Option<u128>,
}

#[derive(Debug)]
pub struct CheckoutResponse {
    pub cart_id: u128,
    pub checkout_url: String,
    pub square_order_id: String,
    pub total_cents: i64,
    pub currency: String,
    /// False when the mock produced this: the URL is not payable and the UI
    /// must say so.
    pub live: bool,
}

#[derive(Debug)]
pub struct RefreshResponse {
    pub cart_id: u128,
    pub status: crate::cart::CartStatus,
    /// True when Square had a payment for this cart.
    pub found: bool,
    pub detail: String,
}

/// A cart is refreshed from Square through the Square order it was sent as.
pub fn refresh_target(cart: &Cart) -> (r: Result<String, AppError>)
    ensures
        match cart.square_order_id {
            Some(o) => r matches Ok(x) && x@ == o@,
            None => r matches Err(AppError::BadRequest(m)) && m@ == "cart has not been sent to Square yet"@,
        },
{
    match &cart.square_order_id {
        Some(o) => Ok(o.clone()),
        None => Err(AppError::BadRequest(String::from_str("cart has not been sent to Square yet"))),
    }
}

/// Square could not be asked.
pub fn square_unreachable(e: &SquareError) -> (r: AppError)
    ensures
        r matches AppError::Unavailable(m) && m@ == "could not reach Square: "@ + e.spec_message(),
{
    let mut m = String::new();
    push_str(&mut m, "could not reach Square: ");
    let d = e.message();
    push_str(&mut m, d.as_str());
    AppError::Unavailable(m)
}

/// What a refresh reports when Square has a payment for the cart: its status
/// and amount.
pub fn refresh_detail(payment: &RemotePayment) -> (r: String)
    requires
        payment.amount_cents > i64::MIN,
    ensures
        r@ == "Square reports "@ + payment.status@ + " ("@ + spec_format_cents(
            payment.amount_cents as int,
            payment.currency@,
        ) + ")."@,
{
    let mut m = String::new();
    push_str(&mut m, "Square reports ");
    push_str(&mut m, payment.status.as_str());
    push_str(&mut m, " (");
    let f = format_cents(payment.amount_cents, payment.currency.as_str());
    push_str(&mut m, f.as_str());
    push_str(&mut m, ").");
    m
}

/// What a refresh reports when Square has nothing yet.
pub fn no_payment_yet() -> (r: &'static str)
    ensures
        r@ == "Square has no payment for this cart yet."@,
{
    "Square has no payment for this cart yet."
}

/// Only an open or awaiting-payment cart can be canceled.
pub fn cancel_outcome(canceled: bool) -> (r: Result<(), AppError>)
    ensures
        canceled ==> r is Ok,
        !canceled ==> (r matches Err(AppError::Conflict(m)) && m@
            == "only an open or awaiting-payment cart can be canceled"@),
{
    if canceled {
        Ok(())
    } else {
        Err(AppError::Conflict(String::from_str("only an open or awaiting-payment cart can be canceled")))
    }
}

/// The link a cart's QR code encodes: only once it has been checked out.
pub fn qr_link(checkout_url: Option<String>) -> (r: Result<String, AppError>)
    ensures
        match checkout_url {
            Some(u) => r matches Ok(x) && x@ == u@,
            None => r matches Err(AppError::BadRequest(m)) && m@
                == "cart has no checkout link yet — check it out first"@,
        },
{
    match checkout_url {
        Some(u) => Ok(u),
        None => Err(AppError::BadRequest(String::from_str("cart has no checkout link yet — check it out first"))),
    }
}

} // verus!
