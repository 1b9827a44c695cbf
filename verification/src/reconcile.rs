//! Reconciliation: does what this app thinks it sold match what Square actually
//! collected?
//!
//! The two sides are joined on the cart's Square order id. Every cart the report
//! covers and every completed Square payment lands in exactly one bucket:
//!
//! | Bucket               | Meaning                                               |
//! |----------------------|-------------------------------------------------------|
//! | `matched`            | both sides agree, to the cent                         |
//! | `amount_mismatch`    | both sides have it, totals differ                     |
//! | `missing_in_square`  | paid here, no completed Square payment                |
//! | `unrecorded_payment` | Square was paid, the cart never left the unpaid states |
//! | `missing_locally`    | Square took money, no cart here names that order      |
//! | `awaiting_payment`   | link issued, customer hasn't paid (informational)     |
//!
//! Only `COMPLETED` Square payments count as revenue, and both sides are taken
//! net of refunds.

use vstd::prelude::*;
use crate::cart::{Cart, CartStatus};
use crate::error::{bad_request, AppError};
use crate::money::{format_cents, spec_format_cents};
use crate::square::RemotePayment;
use crate::text::{decimal, push_decimal, push_str};

verus! {

/// Microseconds in a day.
pub const DAY_MICROS: i64 = 86_400_000_000;

/// Refuse windows longer than this. Square is paginated and a year-wide request
/// would be slow and, past the page cap, wrong.
pub const MAX_WINDOW_DAYS: i64 = 92;

/// How far back the window reaches when no start is given.
pub const DEFAULT_WINDOW_DAYS: i64 = 7;

#[derive(Debug)]
pub struct MatchedRow {
    pub cart_id: u128,
    pub square_order_id: String,
    pub square_payment_id: Option<String>,
    pub cents: i64,
    pub paid_at: Option<i64>,
}

#[derive(Debug)]
pub struct MismatchRow {
    pub cart_id: u128,
    pub square_order_id: String,
    pub square_payment_id: Option<String>,
    /// What the cart said it was charging.
    pub local_cents: i64,
    /// What Square actually collected.
    pub square_cents: i64,
    /// square - local. Positive means Square collected more (a tip, typically).
    pub difference_cents: i64,
    pub paid_at: Option<i64>,
}

#[derive(Debug)]
pub struct LocalOnlyRow {
    pub cart_id: u128,
    pub status: CartStatus,
    pub square_order_id: Option<String>,
    pub cents: i64,
    pub created_at: i64,
    pub paid_at: Option<i64>,
}

#[derive(Debug)]
pub struct SquareOnlyRow {
    pub square_payment_id: String,
    pub square_order_id: Option<String>,
    pub cents: i64,
    pub currency: String,
    pub created_at: i64,
}

#[derive(Debug)]
pub struct ReconciliationReport {
    pub period_start: i64,
    pub period_end: i64,
    pub backend: String,
    /// False when the mock produced these numbers — they are then a logic check,
    /// never a financial one.
    pub live: bool,
    /// Sum of local paid carts (net of refunds).
    pub local_total_cents: i64,
    /// Sum of completed Square payments in the window (net of refunds).
    pub square_total_cents: i64,
    /// square - local. Zero is the goal.
    pub difference_cents: i64,
    pub matched: Vec<MatchedRow>,
    pub amount_mismatch: Vec<MismatchRow>,
    pub missing_in_square: Vec<LocalOnlyRow>,
    pub unrecorded_payment: Vec<MismatchRow>,
    pub missing_locally: Vec<SquareOnlyRow>,
    pub awaiting_payment: Vec<LocalOnlyRow>,
    /// True when every bucket that represents a discrepancy is empty.
    pub balanced: bool,
    /// One-line plain-English summary for the top of the admin screen.
    pub summary: String,
}

/// The reporting window asked for, in microseconds since the epoch; each end
/// defaults as [`reconcile_window`] says.
#[derive(Debug, Clone, Copy)]
pub struct ReconcileQuery {
    pub from: Option<i64>,
    pub to: Option<i64>,
}

/// Where a cart lands.
pub enum Bucket {
    Matched,
    AmountMismatch,
    MissingInSquare,
    UnrecordedPayment,
    /// Not settled and nothing collected: no claim either way.
    Unclaimed,
}

pub open spec fn fits_i64(x: int) -> bool {
    i64::MIN <= x <= i64::MAX
}

/// Index of the last completed payment in `ps` that settles `order`, or -1.
/// When Square lists several, the last one listed is the one compared.
pub open spec fn last_settling(ps: Seq<RemotePayment>, order: Seq<char>) -> int
    decreases ps.len(),
{
    if ps.len() == 0 {
        -1
    } else if ps.last().completed() && ps.last().settles(order) {
        ps.len() - 1
    } else {
        last_settling(ps.drop_last(), order)
    }
}

pub proof fn lemma_last_settling(ps: Seq<RemotePayment>, order: Seq<char>)
    ensures
        -1 <= last_settling(ps, order) < ps.len(),
        last_settling(ps, order) >= 0 ==> ps[last_settling(ps, order)].completed()
            && ps[last_settling(ps, order)].settles(order),
    decreases ps.len(),
{
    if ps.len() > 0 {
        lemma_last_settling(ps.drop_last(), order);
    }
}

/// The completed payment a cart is compared against, if Square has one.
pub open spec fn cart_payment(c: Cart, ps: Seq<RemotePayment>) -> Option<RemotePayment> {
    match c.square_order_id {
        Some(id) => if last_settling(ps, id@) >= 0 {
            Some(ps[last_settling(ps, id@)])
        } else {
            None
        },
        None => None,
    }
}

pub open spec fn bucket_of(c: Cart, ps: Seq<RemotePayment>) -> Bucket {
    match cart_payment(c, ps) {
        Some(p) => if !c.status.is_settled() {
            Bucket::UnrecordedPayment
        } else if p.net_cents() == c.spec_local_cents() {
            Bucket::Matched
        } else {
            Bucket::AmountMismatch
        },
        None => if c.status.is_settled() {
            Bucket::MissingInSquare
        } else {
            Bucket::Unclaimed
        },
    }
}

pub open spec fn matched_row(c: Cart, p: RemotePayment) -> MatchedRow {
    MatchedRow {
        cart_id: c.id,
        square_order_id: c.square_order_id.unwrap(),
        square_payment_id: Some(p.payment_id),
        cents: c.spec_local_cents(),
        paid_at: c.paid_at,
    }
}

pub open spec fn mismatch_row(c: Cart, p: RemotePayment) -> MismatchRow {
    MismatchRow {
        cart_id: c.id,
        square_order_id: c.square_order_id.unwrap(),
        square_payment_id: Some(p.payment_id),
        local_cents: c.spec_local_cents(),
        square_cents: p.net_cents() as i64,
        difference_cents: (p.net_cents() - c.spec_local_cents()) as i64,
        paid_at: c.paid_at,
    }
}

/// Nothing was booked locally, so the local side is zero.
pub open spec fn unrecorded_row(c: Cart, p: RemotePayment) -> MismatchRow {
    MismatchRow {
        cart_id: c.id,
        square_order_id: c.square_order_id.unwrap(),
        square_payment_id: Some(p.payment_id),
        local_cents: 0,
        square_cents: p.net_cents() as i64,
        difference_cents: p.net_cents() as i64,
        paid_at: Some(p.created_at),
    }
}

pub open spec fn missing_row(c: Cart) -> LocalOnlyRow {
    LocalOnlyRow {
        cart_id: c.id,
        status: c.status,
        square_order_id: c.square_order_id,
        cents: c.spec_local_cents(),
        created_at: c.created_at,
        paid_at: c.paid_at,
    }
}

pub open spec fn awaiting_row(c: Cart) -> LocalOnlyRow {
    LocalOnlyRow {
        cart_id: c.id,
        status: c.status,
        square_order_id: c.square_order_id,
        cents: c.total_cents,
        created_at: c.created_at,
        paid_at: None,
    }
}

pub open spec fn square_only_row(p: RemotePayment) -> SquareOnlyRow {
    SquareOnlyRow {
        square_payment_id: p.payment_id,
        square_order_id: p.square_order_id,
        cents: p.net_cents() as i64,
        currency: p.currency,
        created_at: p.created_at,
    }
}

pub open spec fn matched_rows(carts: Seq<Cart>, ps: Seq<RemotePayment>) -> Seq<MatchedRow>
    decreases carts.len(),
{
    if carts.len() == 0 {
        seq![]
    } else {
        let prev = matched_rows(carts.drop_last(), ps);
        let c = carts.last();
        if bucket_of(c, ps) is Matched {
            prev.push(matched_row(c, cart_payment(c, ps).unwrap()))
        } else {
            prev
        }
    }
}

pub open spec fn mismatch_rows(carts: Seq<Cart>, ps: Seq<RemotePayment>) -> Seq<MismatchRow>
    decreases carts.len(),
{
    if carts.len() == 0 {
        seq![]
    } else {
        let prev = mismatch_rows(carts.drop_last(), ps);
        let c = carts.last();
        if bucket_of(c, ps) is AmountMismatch {
            prev.push(mismatch_row(c, cart_payment(c, ps).unwrap()))
        } else {
            prev
        }
    }
}

pub open spec fn missing_in_square_rows(carts: Seq<Cart>, ps: Seq<RemotePayment>) -> Seq<LocalOnlyRow>
    decreases carts.len(),
{
    if carts.len() == 0 {
        seq![]
    } else {
        let prev = missing_in_square_rows(carts.drop_last(), ps);
        let c = carts.last();
        if bucket_of(c, ps) is MissingInSquare {
            prev.push(missing_row(c))
        } else {
            prev
        }
    }
}

pub open spec fn unrecorded_rows(carts: Seq<Cart>, ps: Seq<RemotePayment>) -> Seq<MismatchRow>
    decreases carts.len(),
{
    if carts.len() == 0 {
        seq![]
    } else {
        let prev = unrecorded_rows(carts.drop_last(), ps);
        let c = carts.last();
        if bucket_of(c, ps) is UnrecordedPayment {
            prev.push(unrecorded_row(c, cart_payment(c, ps).unwrap()))
        } else {
            prev
        }
    }
}

pub open spec fn awaiting_rows(carts: Seq<Cart>) -> Seq<LocalOnlyRow>
    decreases carts.len(),
{
    if carts.len() == 0 {
        seq![]
    } else {
        awaiting_rows(carts.drop_last()).push(awaiting_row(carts.last()))
    }
}

/// Sum of what the settled carts represent locally.
pub open spec fn local_total(carts: Seq<Cart>) -> int
    decreases carts.len(),
{
    if carts.len() == 0 {
        0
    } else {
        let c = carts.last();
        local_total(carts.drop_last()) + if c.status.is_settled() { c.spec_local_cents() as int } else { 0 }
    }
}

/// The cart was sent to Square as the order whose id reads `order`.
pub open spec fn cart_names(c: Cart, order: Seq<char>) -> bool {
    match c.square_order_id {
        Some(id) => id@ == order,
        None => false,
    }
}

/// Some cart in the report names this Square order.
pub open spec fn named_by_cart(carts: Seq<Cart>, order: Seq<char>) -> bool {
    exists|i: int| 0 <= i < carts.len() && cart_names(#[trigger] carts[i], order)
}

/// A completed payment the report can attribute to one of its carts.
pub open spec fn attributed(p: RemotePayment, carts: Seq<Cart>) -> bool {
    match p.square_order_id {
        Some(id) => named_by_cart(carts, id@),
        None => false,
    }
}

pub open spec fn missing_locally_rows(ps: Seq<RemotePayment>, carts: Seq<Cart>) -> Seq<SquareOnlyRow>
    decreases ps.len(),
{
    if ps.len() == 0 {
        seq![]
    } else {
        let prev = missing_locally_rows(ps.drop_last(), carts);
        let p = ps.last();
        if p.completed() && !attributed(p, carts) {
            prev.push(square_only_row(p))
        } else {
            prev
        }
    }
}

/// Sum of the completed payments, net of refunds.
pub open spec fn square_total(ps: Seq<RemotePayment>) -> int
    decreases ps.len(),
{
    if ps.len() == 0 {
        0
    } else {
        let p = ps.last();
        square_total(ps.drop_last()) + if p.completed() { p.net_cents() } else { 0 }
    }
}

/// Square's side of the report counts each completed payment for what Square
/// kept of it, the amount collected less what was refunded, and counts any
/// other payment for nothing; the totals of two lists add up.
pub proof fn lemma_square_total_is_net_of_refunds(a: Seq<RemotePayment>, b: Seq<RemotePayment>, p: RemotePayment)
    ensures
        square_total(Seq::<RemotePayment>::empty()) == 0,
        square_total(seq![p]) == if p.completed() { p.amount_cents - p.refunded_cents } else { 0 },
        square_total(a + b) == square_total(a) + square_total(b),
    decreases b.len(),
{
    assert(seq![p].drop_last() =~= Seq::<RemotePayment>::empty());
    if b.len() > 0 {
        lemma_square_total_is_net_of_refunds(a, b.drop_last(), p);
        assert((a + b).drop_last() =~= a + b.drop_last());
        assert((a + b).last() == b.last());
    } else {
        assert(a + b =~= a);
    }
}

/// A settled cart is compared with the completed payment Square holds for its
/// order by what Square kept of it, the amount less refunds: the cart is
/// matched, at its local amount, exactly when the two agree, and is otherwise
/// an amount mismatch showing that net amount against the local one. Carts are
/// bucketed one at a time: a longer list adds its last cart's rows.
pub proof fn lemma_settled_cart_compares_net_of_refunds(carts: Seq<Cart>, c: Cart, ps: Seq<RemotePayment>, p: RemotePayment)
    requires
        c.status.is_settled(),
        cart_payment(c, ps) == Some(p),
    ensures
        p.completed(),
        c.square_order_id matches Some(o) && p.settles(o@),
        p.amount_cents - p.refunded_cents == c.spec_local_cents() ==> {
            &&& matched_rows(seq![c], ps) == seq![matched_row(c, p)]
            &&& matched_row(c, p).cents == c.spec_local_cents()
            &&& mismatch_rows(seq![c], ps).len() == 0
        },
        p.amount_cents - p.refunded_cents != c.spec_local_cents() ==> {
            &&& matched_rows(seq![c], ps).len() == 0
            &&& mismatch_rows(seq![c], ps).len() == 1
            &&& mismatch_rows(seq![c], ps)[0].square_cents == (p.amount_cents - p.refunded_cents) as i64
            &&& mismatch_rows(seq![c], ps)[0].local_cents == c.spec_local_cents()
        },
        matched_rows(carts.push(c), ps) == matched_rows(carts, ps) + matched_rows(seq![c], ps),
        mismatch_rows(carts.push(c), ps) == mismatch_rows(carts, ps) + mismatch_rows(seq![c], ps),
{
    let o = c.square_order_id.unwrap();
    lemma_last_settling(ps, o@);
    let one = seq![c];
    assert(one.drop_last() =~= Seq::<Cart>::empty());
    assert(one.last() == c);
    assert(carts.push(c).drop_last() =~= carts);
    assert(matched_rows(Seq::<Cart>::empty(), ps) =~= Seq::<MatchedRow>::empty());
    assert(mismatch_rows(Seq::<Cart>::empty(), ps) =~= Seq::<MismatchRow>::empty());
    assert(matched_rows(carts, ps) + Seq::<MatchedRow>::empty() =~= matched_rows(carts, ps));
    assert(mismatch_rows(carts, ps) + Seq::<MismatchRow>::empty() =~= mismatch_rows(carts, ps));
    if p.amount_cents - p.refunded_cents == c.spec_local_cents() {
        assert(bucket_of(c, ps) is Matched);
        assert(matched_rows(one, ps) =~= seq![matched_row(c, p)]);
        assert(matched_rows(carts.push(c), ps) =~= matched_rows(carts, ps) + matched_rows(one, ps));
    } else {
        assert(bucket_of(c, ps) is AmountMismatch);
        assert(mismatch_rows(one, ps) =~= seq![mismatch_row(c, p)]);
        assert(mismatch_rows(carts.push(c), ps) =~= mismatch_rows(carts, ps) + mismatch_rows(one, ps));
    }
}

/// The report can be computed in 64-bit cents: every running total, every net
/// payment and every difference fits, and no total is the one value that has no
/// printable magnitude.
pub open spec fn arithmetic_fits(carts: Seq<Cart>, ps: Seq<RemotePayment>) -> bool {
    &&& forall|i: int| 0 <= i < ps.len() && (#[trigger] ps[i]).completed() ==> fits_i64(ps[i].net_cents())
    &&& forall|k: int| 0 <= k <= carts.len() ==> fits_i64(#[trigger] local_total(carts.take(k)))
    &&& forall|k: int| 0 <= k <= ps.len() ==> fits_i64(#[trigger] square_total(ps.take(k)))
    &&& forall|i: int| 0 <= i < carts.len() && (#[trigger] bucket_of(carts[i], ps)) is AmountMismatch
        ==> fits_i64(cart_payment(carts[i], ps).unwrap().net_cents() - carts[i].spec_local_cents())
    &&& i64::MIN < local_total(carts)
    &&& i64::MIN < square_total(ps)
    &&& i64::MIN < square_total(ps) - local_total(carts) <= i64::MAX
}

/// Number of carts with money against them (paid or refunded).
pub open spec fn settled_count(carts: Seq<Cart>) -> nat
    decreases carts.len(),
{
    if carts.len() == 0 {
        0
    } else {
        settled_count(carts.drop_last()) + if carts.last().status.is_settled() { 1nat } else { 0nat }
    }
}

/// Number of unsettled carts that Square nevertheless collected against.
pub open spec fn collected_unsettled_count(carts: Seq<Cart>, ps: Seq<RemotePayment>) -> nat
    decreases carts.len(),
{
    if carts.len() == 0 {
        0
    } else {
        let c = carts.last();
        collected_unsettled_count(carts.drop_last(), ps) + if !c.status.is_settled() && cart_payment(c, ps) is Some {
            1nat
        } else {
            0nat
        }
    }
}

pub open spec fn completed_count(ps: Seq<RemotePayment>) -> nat
    decreases ps.len(),
{
    if ps.len() == 0 {
        0
    } else {
        completed_count(ps.drop_last()) + if ps.last().completed() { 1nat } else { 0nat }
    }
}

pub open spec fn attributed_count(ps: Seq<RemotePayment>, carts: Seq<Cart>) -> nat
    decreases ps.len(),
{
    if ps.len() == 0 {
        0
    } else {
        let p = ps.last();
        attributed_count(ps.drop_last(), carts) + if p.completed() && attributed(p, carts) { 1nat } else { 0nat }
    }
}

pub open spec fn matched_sum(rows: Seq<MatchedRow>) -> int
    decreases rows.len(),
{
    if rows.len() == 0 { 0 } else { matched_sum(rows.drop_last()) + rows.last().cents }
}

pub open spec fn mismatch_local_sum(rows: Seq<MismatchRow>) -> int
    decreases rows.len(),
{
    if rows.len() == 0 { 0 } else { mismatch_local_sum(rows.drop_last()) + rows.last().local_cents }
}

pub open spec fn local_only_sum(rows: Seq<LocalOnlyRow>) -> int
    decreases rows.len(),
{
    if rows.len() == 0 { 0 } else { local_only_sum(rows.drop_last()) + rows.last().cents }
}

/// Every paid or refunded cart lands in exactly one of `matched`,
/// `amount_mismatch` and `missing_in_square`; every other cart that Square
/// collected against lands in `unrecorded_payment`; nothing else produces a row.
pub proof fn lemma_every_cart_in_one_bucket(carts: Seq<Cart>, ps: Seq<RemotePayment>)
    ensures
        matched_rows(carts, ps).len() + mismatch_rows(carts, ps).len() + missing_in_square_rows(carts, ps).len()
            == settled_count(carts),
        unrecorded_rows(carts, ps).len() == collected_unsettled_count(carts, ps),
    decreases carts.len(),
{
    if carts.len() > 0 {
        lemma_every_cart_in_one_bucket(carts.drop_last(), ps);
    }
}

/// The local total is exactly what the paid carts' rows carry: matched cents
/// plus the local side of every mismatch plus everything missing in Square.
pub proof fn lemma_local_total_is_sum_of_rows(carts: Seq<Cart>, ps: Seq<RemotePayment>)
    ensures
        local_total(carts) == matched_sum(matched_rows(carts, ps)) + mismatch_local_sum(mismatch_rows(carts, ps))
            + local_only_sum(missing_in_square_rows(carts, ps)),
    decreases carts.len(),
{
    if carts.len() > 0 {
        lemma_local_total_is_sum_of_rows(carts.drop_last(), ps);
        let c = carts.last();
        let prev = carts.drop_last();
        match bucket_of(c, ps) {
            Bucket::Matched => {
                assert(matched_rows(carts, ps).drop_last() == matched_rows(prev, ps));
            },
            Bucket::AmountMismatch => {
                assert(mismatch_rows(carts, ps).drop_last() == mismatch_rows(prev, ps));
            },
            Bucket::MissingInSquare => {
                assert(missing_in_square_rows(carts, ps).drop_last() == missing_in_square_rows(prev, ps));
            },
            _ => {},
        }
    }
}

/// Every completed Square payment is either attributed to a cart of the report
/// or listed in `missing_locally` — never both, never neither.
pub proof fn lemma_every_payment_accounted(ps: Seq<RemotePayment>, carts: Seq<Cart>)
    ensures
        missing_locally_rows(ps, carts).len() + attributed_count(ps, carts) == completed_count(ps),
    decreases ps.len(),
{
    if ps.len() > 0 {
        lemma_every_payment_accounted(ps.drop_last(), carts);
    }
}

proof fn lemma_settling_found(ps: Seq<RemotePayment>, order: Seq<char>, j: int)
    requires
        0 <= j < ps.len(),
        ps[j].completed(),
        ps[j].settles(order),
    ensures
        last_settling(ps, order) >= j,
    decreases ps.len(),
{
    if j < ps.len() - 1 {
        lemma_settling_found(ps.drop_last(), order, j);
    }
}

/// A cart naming an order that Square has a completed payment for is never
/// reported as missing in Square: it is matched, mismatched, or (when the cart
/// was never marked paid) an unrecorded payment.
pub proof fn lemma_paid_order_never_missing(carts: Seq<Cart>, ps: Seq<RemotePayment>, i: int, j: int)
    requires
        0 <= i < carts.len(),
        0 <= j < ps.len(),
        ps[j].completed(),
        ps[j].square_order_id is Some,
        cart_names(carts[i], ps[j].square_order_id.unwrap()@),
    ensures
        !(bucket_of(carts[i], ps) is MissingInSquare),
        !(bucket_of(carts[i], ps) is Unclaimed),
{
    let order = ps[j].square_order_id.unwrap()@;
    lemma_settling_found(ps, order, j);
    lemma_last_settling(ps, order);
}

/// Matched rows agree to the cent; mismatch rows never do, and carry the signed
/// difference square - local.
pub proof fn lemma_rows_agree_as_labelled(carts: Seq<Cart>, ps: Seq<RemotePayment>, i: int)
    requires
        0 <= i < carts.len(),
    ensures
        bucket_of(carts[i], ps) is Matched ==> cart_payment(carts[i], ps).unwrap().net_cents()
            == carts[i].spec_local_cents(),
        bucket_of(carts[i], ps) is AmountMismatch ==> cart_payment(carts[i], ps).unwrap().net_cents()
            != carts[i].spec_local_cents() && carts[i].status.is_settled(),
        bucket_of(carts[i], ps) is UnrecordedPayment ==> !carts[i].status.is_settled(),
{
}

/// Folds one summary part into the running head: parts are joined by ", ".
pub open spec fn add_part(acc: (bool, Seq<char>), present: bool, part: Seq<char>) -> (bool, Seq<char>) {
    if !present {
        acc
    } else if acc.0 {
        (true, acc.1 + ", "@ + part)
    } else {
        (true, acc.1 + part)
    }
}

pub open spec fn summary_head(mismatched: nat, missing: nat, unrecorded: nat, only_square: nat) -> Seq<char> {
    let a0 = (false, Seq::<char>::empty());
    let a1 = add_part(a0, mismatched > 0, decimal(mismatched) + " amount mismatch"@);
    let a2 = add_part(a1, missing > 0, decimal(missing) + " missing in Square"@);
    let a3 = add_part(a2, unrecorded > 0, decimal(unrecorded) + " paid but unrecorded"@);
    let a4 = add_part(a3, only_square > 0, decimal(only_square) + " only in Square"@);
    if a4.0 { a4.1 } else { "Totals differ"@ }
}

/// The one-line summary at the top of the admin screen.
pub open spec fn spec_summary(
    balanced: bool,
    matched: nat,
    mismatched: nat,
    missing: nat,
    unrecorded: nat,
    only_square: nat,
    local: int,
    square: int,
) -> Seq<char> {
    if balanced {
        "Balanced — "@ + decimal(matched) + " matched, "@ + spec_format_cents(local, "USD"@)
            + " on both sides."@
    } else {
        summary_head(mismatched, missing, unrecorded, only_square) + " — Square "@
            + spec_format_cents(square, "USD"@) + " vs local "@ + spec_format_cents(local, "USD"@)
            + " (difference "@ + spec_format_cents(square - local, "USD"@) + ")."@
    }
}

/// The reporting window: `to` defaults to now and `from` to seven days before
/// `to`. Refused when it is empty or reversed, or longer than 92 days.
pub open spec fn spec_window(from: Option<i64>, to: Option<i64>, now: i64) -> Result<(i64, i64), Seq<char>> {
    let end = match to { Some(t) => t as int, None => now as int };
    let start = match from { Some(f) => f as int, None => end - DEFAULT_WINDOW_DAYS * DAY_MICROS };
    if start >= end {
        Err("`from` must be before `to`"@)
    } else if end - start > MAX_WINDOW_DAYS * DAY_MICROS {
        Err("window is limited to 92 days"@)
    } else {
        Ok((start as i64, end as i64))
    }
}

/// Resolve and check the reporting window.
pub fn reconcile_window(from: Option<i64>, to: Option<i64>, now: i64) -> (r: Result<(i64, i64), AppError>)
    requires
        from is None ==> fits_i64(
            (match to { Some(t) => t as int, None => now as int }) - DEFAULT_WINDOW_DAYS * DAY_MICROS,
        ),
    ensures
        match (r, spec_window(from, to, now)) {
            (Ok(w), Ok(s)) => w == s,
            (Err(e), Err(m)) => e is BadRequest && e.message() == m,
            _ => false,
        },
{
    let end = match to {
        Some(t) => t,
        None => now,
    };
    let start = match from {
        Some(f) => f,
        None => end - DEFAULT_WINDOW_DAYS * DAY_MICROS,
    };
    if start >= end {
        return Err(bad_request("`from` must be before `to`"));
    }
    if (end as i128) - (start as i128) > (MAX_WINDOW_DAYS as i128) * (DAY_MICROS as i128) {
        return Err(bad_request("window is limited to 92 days"));
    }
    Ok((start, end))
}

fn clone_opt_string(s: &Option<String>) -> (r: Option<String>)
    ensures
        r == *s,
{
    match s {
        Some(x) => Some(x.clone()),
        None => None,
    }
}

/// Index of the last completed payment settling `order`.
fn find_settling(ps: &Vec<RemotePayment>, done: &Vec<bool>, order: &String) -> (r: Option<usize>)
    requires
        done@.len() == ps@.len(),
        forall|i: int| 0 <= i < ps@.len() ==> done@[i] == (#[trigger] ps@[i]).completed(),
    ensures
        match r {
            Some(k) => k as int == last_settling(ps@, order@) && k < ps@.len(),
            None => last_settling(ps@, order@) == -1,
        },
{
    let mut found: Option<usize> = None;
    let mut i: usize = 0;
    while i < ps.len()
        invariant
            i <= ps@.len(),
            done@.len() == ps@.len(),
            forall|j: int| 0 <= j < ps@.len() ==> done@[j] == (#[trigger] ps@[j]).completed(),
            match found {
                Some(k) => k as int == last_settling(ps@.take(i as int), order@) && k < i,
                None => last_settling(ps@.take(i as int), order@) == -1,
            },
        decreases ps@.len() - i,
    {
        let p = &ps[i];
        let hit = done[i] && match &p.square_order_id {
            Some(id) => *id == *order,
            None => false,
        };
        proof {
            let t = ps@.take(i + 1);
            assert(t.drop_last() =~= ps@.take(i as int));
            assert(t.last() == ps@[i as int]);
        }
        if hit {
            found = Some(i);
        }
        i = i + 1;
    }
    proof {
        assert(ps@.take(ps@.len() as int) =~= ps@);
    }
    found
}

fn named_by(carts: &Vec<Cart>, order: &String) -> (r: bool)
    ensures
        r == named_by_cart(carts@, order@),
{
    let mut i: usize = 0;
    while i < carts.len()
        invariant
            i <= carts@.len(),
            forall|j: int| 0 <= j < i ==> !cart_names(#[trigger] carts@[j], order@),
        decreases carts@.len() - i,
    {
        match &carts[i].square_order_id {
            Some(id) => {
                if *id == *order {
                    assert(cart_names(carts@[i as int], order@));
                    return true;
                }
            },
            None => {},
        }
        i = i + 1;
    }
    false
}

proof fn lemma_take_last<T>(s: Seq<T>, i: int)
    requires
        0 <= i < s.len(),
    ensures
        s.take(i + 1).drop_last() == s.take(i),
        s.take(i + 1).last() == s[i],
{
    assert(s.take(i + 1).drop_last() =~= s.take(i));
}

/// `r` is the report on `payments` (Square's list for the window) and `carts`
/// and `awaiting` (ours): every bucket, total and the summary, whatever its
/// period.
pub open spec fn reconciled(
    r: ReconciliationReport,
    backend: String,
    live: bool,
    payments: Seq<RemotePayment>,
    carts: Seq<Cart>,
    awaiting: Seq<Cart>,
) -> bool {
    &&& r.backend == backend
    &&& r.live == live
    &&& r.matched@ == matched_rows(carts, payments)
    &&& r.amount_mismatch@ == mismatch_rows(carts, payments)
    &&& r.missing_in_square@ == missing_in_square_rows(carts, payments)
    &&& r.unrecorded_payment@ == unrecorded_rows(carts, payments)
    &&& r.missing_locally@ == missing_locally_rows(payments, carts)
    &&& r.awaiting_payment@ == awaiting_rows(awaiting)
    &&& r.local_total_cents == local_total(carts)
    &&& r.square_total_cents == square_total(payments)
    &&& r.difference_cents == square_total(payments) - local_total(carts)
    &&& r.balanced == (r.amount_mismatch@.len() == 0 && r.missing_in_square@.len() == 0
        && r.unrecorded_payment@.len() == 0 && r.missing_locally@.len() == 0)
    &&& r.summary@ == spec_summary(
        r.balanced,
        r.matched@.len(),
        r.amount_mismatch@.len(),
        r.missing_in_square@.len(),
        r.unrecorded_payment@.len(),
        r.missing_locally@.len(),
        r.local_total_cents as int,
        r.square_total_cents as int,
    )
}

/// Compare what this app recorded selling against what Square collected.
///
/// `payments` is Square's list for the window, `carts` every cart either paid in
/// the window or named by one of those payments, and `awaiting` the carts whose
/// link was issued in the window and is still unpaid.
pub fn reconcile(
    period_start: i64,
    period_end: i64,
    backend: String,
    live: bool,
    payments: &Vec<RemotePayment>,
    carts: &Vec<Cart>,
    awaiting: &Vec<Cart>,
) -> (r: ReconciliationReport)
    requires
        arithmetic_fits(carts@, payments@),
    ensures
        r.period_start == period_start,
        r.period_end == period_end,
        reconciled(r, backend, live, payments@, carts@, awaiting@),
{
    let ghost ps = payments@;
    let ghost cs = carts@;

    // Which payments count as revenue at all.
    let mut done: Vec<bool> = Vec::new();
    let mut j: usize = 0;
    while j < payments.len()
        invariant
            j <= ps.len(),
            ps == payments@,
            done@.len() == j,
            forall|i: int| 0 <= i < j ==> done@[i] == (#[trigger] ps[i]).completed(),
        decreases ps.len() - j,
    {
        let c = payments[j].is_completed();
        done.push(c);
        j = j + 1;
    }

    let mut matched: Vec<MatchedRow> = Vec::new();
    let mut amount_mismatch: Vec<MismatchRow> = Vec::new();
    let mut missing_in_square: Vec<LocalOnlyRow> = Vec::new();
    let mut unrecorded_payment: Vec<MismatchRow> = Vec::new();
    let mut local: i64 = 0;

    let mut i: usize = 0;
    while i < carts.len()
        invariant
            i <= cs.len(),
            cs == carts@,
            ps == payments@,
            done@.len() == ps.len(),
            forall|k: int| 0 <= k < ps.len() ==> done@[k] == (#[trigger] ps[k]).completed(),
            arithmetic_fits(cs, ps),
            matched@ == matched_rows(cs.take(i as int), ps),
            amount_mismatch@ == mismatch_rows(cs.take(i as int), ps),
            missing_in_square@ == missing_in_square_rows(cs.take(i as int), ps),
            unrecorded_payment@ == unrecorded_rows(cs.take(i as int), ps),
            local == local_total(cs.take(i as int)),
        decreases cs.len() - i,
    {
        let c = &carts[i];
        proof {
            lemma_take_last(cs, i as int);
        }
        let ghost t = cs.take(i + 1);
        proof {
            if let Some(id) = cs[i as int].square_order_id {
                lemma_last_settling(ps, id@);
            }
        }
        let found: Option<usize> = match &c.square_order_id {
            Some(id) => find_settling(payments, &done, id),
            None => None,
        };
        proof {
            let cc = cs[i as int];
            match cc.square_order_id {
                Some(id) => {
                    match found {
                        Some(k) => assert(cart_payment(cc, ps) == Some(ps[k as int])),
                        None => assert(cart_payment(cc, ps) is None),
                    }
                },
                None => assert(cart_payment(cc, ps) is None),
            }
        }
        if !c.status.settled() {
            if let Some(k) = found {
                let p = &payments[k];
                assert(fits_i64(ps[k as int].net_cents()));
                let net = p.amount_cents - p.refunded_cents;
                let row = MismatchRow {
                    cart_id: c.id,
                    square_order_id: clone_opt_string(&c.square_order_id).unwrap(),
                    square_payment_id: Some(p.payment_id.clone()),
                    local_cents: 0,
                    square_cents: net,
                    difference_cents: net,
                    paid_at: Some(p.created_at),
                };
                unrecorded_payment.push(row);
            }
            proof {
                assert(local_total(t) == local_total(cs.take(i as int)));
            }
        } else {
            let cents = c.local_cents();
            assert(fits_i64(local_total(t))) by {
                assert(0 <= i + 1 <= cs.len());
            }
            local = local + cents;
            match found {
                Some(k) => {
                    let p = &payments[k];
                    assert(fits_i64(ps[k as int].net_cents()));
                    let net = p.amount_cents - p.refunded_cents;
                    if net == cents {
                        let row = MatchedRow {
                            cart_id: c.id,
                            square_order_id: clone_opt_string(&c.square_order_id).unwrap(),
                            square_payment_id: Some(p.payment_id.clone()),
                            cents,
                            paid_at: c.paid_at,
                        };
                        matched.push(row);
                    } else {
                        assert(bucket_of(cs[i as int], ps) is AmountMismatch);
                        let row = MismatchRow {
                            cart_id: c.id,
                            square_order_id: clone_opt_string(&c.square_order_id).unwrap(),
                            square_payment_id: Some(p.payment_id.clone()),
                            local_cents: cents,
                            square_cents: net,
                            difference_cents: net - cents,
                            paid_at: c.paid_at,
                        };
                        amount_mismatch.push(row);
                    }
                },
                None => {
                    let row = LocalOnlyRow {
                        cart_id: c.id,
                        status: c.status,
                        square_order_id: clone_opt_string(&c.square_order_id),
                        cents,
                        created_at: c.created_at,
                        paid_at: c.paid_at,
                    };
                    missing_in_square.push(row);
                },
            }
        }
        i = i + 1;
    }
    proof {
        assert(cs.take(cs.len() as int) =~= cs);
    }

    let mut square: i64 = 0;
    let mut missing_locally: Vec<SquareOnlyRow> = Vec::new();
    let mut k: usize = 0;
    while k < payments.len()
        invariant
            k <= ps.len(),
            cs == carts@,
            ps == payments@,
            done@.len() == ps.len(),
            forall|x: int| 0 <= x < ps.len() ==> done@[x] == (#[trigger] ps[x]).completed(),
            arithmetic_fits(cs, ps),
            square == square_total(ps.take(k as int)),
            missing_locally@ == missing_locally_rows(ps.take(k as int), cs),
        decreases ps.len() - k,
    {
        proof {
            lemma_take_last(ps, k as int);
        }
        let ghost t = ps.take(k + 1);
        if done[k] {
            let p = &payments[k];
            assert(fits_i64(ps[k as int].net_cents()));
            let net = p.amount_cents - p.refunded_cents;
            assert(fits_i64(square_total(t))) by {
                assert(0 <= k + 1 <= ps.len());
            }
            square = square + net;
            let known = match &p.square_order_id {
                Some(id) => named_by(carts, id),
                None => false,
            };
            if !known {
                let row = SquareOnlyRow {
                    square_payment_id: p.payment_id.clone(),
                    square_order_id: clone_opt_string(&p.square_order_id),
                    cents: net,
                    currency: p.currency.clone(),
                    created_at: p.created_at,
                };
                missing_locally.push(row);
            }
        }
        k = k + 1;
    }
    proof {
        assert(ps.take(ps.len() as int) =~= ps);
    }

    let mut awaiting_payment: Vec<LocalOnlyRow> = Vec::new();
    let mut a: usize = 0;
    while a < awaiting.len()
        invariant
            a <= awaiting@.len(),
            awaiting_payment@ == awaiting_rows(awaiting@.take(a as int)),
        decreases awaiting@.len() - a,
    {
        proof {
            lemma_take_last(awaiting@, a as int);
        }
        let c = &awaiting[a];
        let row = LocalOnlyRow {
            cart_id: c.id,
            status: c.status,
            square_order_id: clone_opt_string(&c.square_order_id),
            cents: c.total_cents,
            created_at: c.created_at,
            paid_at: None,
        };
        awaiting_payment.push(row);
        a = a + 1;
    }
    proof {
        assert(awaiting@.take(awaiting@.len() as int) =~= awaiting@);
    }

    let balanced = amount_mismatch.len() == 0 && missing_in_square.len() == 0
        && unrecorded_payment.len() == 0 && missing_locally.len() == 0;
    let difference = square - local;
    let summary = build_summary(
        balanced,
        matched.len() as u64,
        amount_mismatch.len() as u64,
        missing_in_square.len() as u64,
        unrecorded_payment.len() as u64,
        missing_locally.len() as u64,
        local,
        square,
    );

    ReconciliationReport {
        period_start,
        period_end,
        backend,
        live,
        local_total_cents: local,
        square_total_cents: square,
        difference_cents: difference,
        matched,
        amount_mismatch,
        missing_in_square,
        unrecorded_payment,
        missing_locally,
        awaiting_payment,
        balanced,
        summary,
    }
}

fn push_part(s: &mut String, any: bool, n: u64, label: &str)
    ensures
        final(s)@ == add_part((any, old(s)@), true, decimal(n as nat) + label@).1,
{
    if any {
        push_str(s, ", ");
    }
    push_decimal(s, n);
    push_str(s, label);
    proof {
        if any {
            assert(final(s)@ =~= old(s)@ + ", "@ + (decimal(n as nat) + label@));
        } else {
            assert(final(s)@ =~= old(s)@ + (decimal(n as nat) + label@));
        }
    }
}

fn build_summary(
    balanced: bool,
    matched: u64,
    mismatched: u64,
    missing: u64,
    unrecorded: u64,
    only_square: u64,
    local: i64,
    square: i64,
) -> (r: String)
    requires
        i64::MIN < local,
        i64::MIN < square,
        i64::MIN < square - local <= i64::MAX,
    ensures
        r@ == spec_summary(
            balanced,
            matched as nat,
            mismatched as nat,
            missing as nat,
            unrecorded as nat,
            only_square as nat,
            local as int,
            square as int,
        ),
{
    let mut s = String::new();
    if balanced {
        push_str(&mut s, "Balanced — ");
        push_decimal(&mut s, matched);
        push_str(&mut s, " matched, ");
        let l = format_cents(local, "USD");
        push_str(&mut s, l.as_str());
        push_str(&mut s, " on both sides.");
        proof {
            assert(s@ =~= spec_summary(
                balanced,
                matched as nat,
                mismatched as nat,
                missing as nat,
                unrecorded as nat,
                only_square as nat,
                local as int,
                square as int,
            ));
        }
        return s;
    }
    let ghost a0 = (false, Seq::<char>::empty());
    let mut any = false;
    if mismatched > 0 {
        push_part(&mut s, any, mismatched, " amount mismatch");
        any = true;
    }
    let ghost a1 = add_part(a0, mismatched > 0, decimal(mismatched as nat) + " amount mismatch"@);
    assert(any == a1.0 && s@ == a1.1);
    if missing > 0 {
        push_part(&mut s, any, missing, " missing in Square");
        any = true;
    }
    let ghost a2 = add_part(a1, missing > 0, decimal(missing as nat) + " missing in Square"@);
    assert(any == a2.0 && s@ == a2.1);
    if unrecorded > 0 {
        push_part(&mut s, any, unrecorded, " paid but unrecorded");
        any = true;
    }
    let ghost a3 = add_part(a2, unrecorded > 0, decimal(unrecorded as nat) + " paid but unrecorded"@);
    assert(any == a3.0 && s@ == a3.1);
    if only_square > 0 {
        push_part(&mut s, any, only_square, " only in Square");
        any = true;
    }
    let ghost a4 = add_part(a3, only_square > 0, decimal(only_square as nat) + " only in Square"@);
    assert(any == a4.0 && s@ == a4.1);
    if !any {
        push_str(&mut s, "Totals differ");
    }
    assert(s@ == summary_head(mismatched as nat, missing as nat, unrecorded as nat, only_square as nat));
    let ghost head = s@;
    push_str(&mut s, " — Square ");
    let sq = format_cents(square, "USD");
    push_str(&mut s, sq.as_str());
    push_str(&mut s, " vs local ");
    let lo = format_cents(local, "USD");
    push_str(&mut s, lo.as_str());
    push_str(&mut s, " (difference ");
    let df = format_cents(square - local, "USD");
    push_str(&mut s, df.as_str());
    push_str(&mut s, ").");
    proof {
        assert(s@ =~= head + " — Square "@ + spec_format_cents(square as int, "USD"@) + " vs local "@
            + spec_format_cents(local as int, "USD"@) + " (difference "@ + spec_format_cents(
            square - local,
            "USD"@,
        ) + ")."@);
    }
    s
}


/// Resolve the reporting window, then report on what was read for it. A window
/// that is empty, reversed or longer than 92 days is refused (BadRequest), and
/// nothing is reported; otherwise the report covers exactly that window. The
/// caller lists Square's payments and reads the carts for the window that
/// [`reconcile_window`] gives for the same `from`, `to` and `now`.
pub fn reconcile_period(
    from: Option<i64>,
    to: Option<i64>,
    now: i64,
    backend: String,
    live: bool,
    payments: &Vec<RemotePayment>,
    carts: &Vec<Cart>,
    awaiting: &Vec<Cart>,
) -> (r: Result<ReconciliationReport, AppError>)
    requires
        from is None ==> fits_i64(
            (match to { Some(t) => t as int, None => now as int }) - DEFAULT_WINDOW_DAYS * DAY_MICROS,
        ),
        spec_window(from, to, now) is Ok ==> arithmetic_fits(carts@, payments@),
    ensures
        match spec_window(from, to, now) {
            Err(m) => r matches Err(e) && e is BadRequest && e.message() == m,
            Ok((start, end)) => r matches Ok(rep) && rep.period_start == start && rep.period_end == end
                && reconciled(rep, backend, live, payments@, carts@, awaiting@),
        },
{
    match reconcile_window(from, to, now) {
        Err(e) => Err(e),
        Ok((start, end)) => Ok(reconcile(start, end, backend, live, payments, carts, awaiting)),
    }
}

/// The headline counts a saved run keeps: matched carts, mismatches (an
/// unrecorded payment counts as one: nothing booked, something collected),
/// carts missing in Square and payments only in Square. Stored as 32-bit
/// integers, truncated as a cast truncates.
#[derive(Debug, Clone, Copy, PartialEq, Eq, Structural)]
pub struct RunCounts {
    pub matched: i32,
    pub mismatched: i32,
    pub missing_in_square: i32,
    pub missing_locally: i32,
}

pub fn run_counts(report: &ReconciliationReport) -> (c: RunCounts)
    ensures
        c.matched == report.matched@.len() as i32,
        c.mismatched == (report.amount_mismatch@.len() + report.unrecorded_payment@.len()) as i32,
        c.missing_in_square == report.missing_in_square@.len() as i32,
        c.missing_locally == report.missing_locally@.len() as i32,
{
    let mismatched: u128 = report.amount_mismatch.len() as u128 + report.unrecorded_payment.len() as u128;
    RunCounts {
        matched: report.matched.len() as i32,
        mismatched: mismatched as i32,
        missing_in_square: report.missing_in_square.len() as i32,
        missing_locally: report.missing_locally.len() as i32,
    }
}

} // verus!
