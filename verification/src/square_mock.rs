//! In-process stand-in for Square, used whenever credentials are absent.
//!
//! It keeps state: a checkout records a COMPLETED payment for the cart's total,
//! as though the customer paid the moment the link was issued. That makes the
//! whole downstream path — refresh-from-Square, the reconciliation report, the
//! matched/mismatched buckets — exercisable end to end with no credentials.
//! State is per-process and lost on restart.

use vstd::prelude::*;
use crate::ident::{id_simple, spec_id_simple};
use crate::square::{CheckoutHandle, CheckoutPush, CustomerPush, RemotePayment, SquareError};
use crate::square_api::now_micros;
use crate::text::{has_prefix, push_str, starts_with};

verus! {

/// Payments by id.
pub type Store = Map<Seq<char>, RemotePayment>;

pub struct MockSquare {
    payments: Vec<RemotePayment>,
}

/// The payments of a list, keyed by id; a later entry wins.
pub open spec fn to_map(s: Seq<RemotePayment>) -> Store
    decreases s.len(),
{
    if s.len() == 0 {
        Map::empty()
    } else {
        to_map(s.drop_last()).insert(s.last().payment_id@, s.last())
    }
}

pub open spec fn unique_ids(s: Seq<RemotePayment>) -> bool {
    forall|i: int, j: int|
        0 <= i < s.len() && 0 <= j < s.len() && i != j ==> (#[trigger] s[i]).payment_id@ != (#[trigger] s[j]).payment_id@
}

/// The ids the mock hands out, all derived from the cart id.
pub open spec fn pay_id(h: Seq<char>) -> Seq<char> {
    "mock_pay_"@ + h
}

pub open spec fn order_id(h: Seq<char>) -> Seq<char> {
    "mock_ord_"@ + h
}

pub open spec fn link_id(h: Seq<char>) -> Seq<char> {
    "mock_link_"@ + h
}

/// Every stored payment settles the mock order derived from the same cart as
/// its own id.
pub open spec fn derived(p: RemotePayment) -> bool {
    exists|h: Seq<char>| h.len() == 32 && #[trigger] pay_id(h) == p.payment_id@ && p.settles(order_id(h))
}

/// What a checkout charges: the lines, net of discounts, never below zero.
/// The sums are taken in 64-bit cents and wrap on overflow, as the release
/// build's integer arithmetic does.
pub open spec fn gross(lines: Seq<crate::square::LineItemPush>) -> i64
    decreases lines.len(),
{
    if lines.len() == 0 {
        0
    } else {
        gross(lines.drop_last()).wrapping_add(lines.last().unit_amount_cents.wrapping_mul(lines.last().quantity as i64))
    }
}

pub open spec fn discounted(ds: Seq<crate::square::DiscountPush>) -> i64
    decreases ds.len(),
{
    if ds.len() == 0 { 0 } else { discounted(ds.drop_last()).wrapping_add(ds.last().amount_cents) }
}

pub open spec fn checkout_total(push: CheckoutPush) -> i64 {
    let t = gross(push.line_items@).wrapping_sub(discounted(push.discounts@));
    if t > 0 { t } else { 0 }
}

/// Every line's charge, its unit amount times its quantity, added up in whole
/// numbers.
pub open spec fn charges_of(lines: Seq<crate::square::LineItemPush>) -> int {
    lines.fold_left(0int, |acc: int, l: crate::square::LineItemPush| acc + l.unit_amount_cents * l.quantity)
}

/// Every discount's amount, added up in whole numbers.
pub open spec fn discounts_of(ds: Seq<crate::square::DiscountPush>) -> int {
    ds.fold_left(0int, |acc: int, d: crate::square::DiscountPush| acc + d.amount_cents)
}

proof fn lemma_crop_in_range(x: int)
    requires
        i64::MIN <= x <= i64::MAX,
    ensures
        vstd::wrapping::i64_specs::signed_crop(x) == x,
{
    let r: int = 0x1_0000_0000_0000_0000;
    if x >= 0 {
        vstd::arithmetic::div_mod::lemma_fundamental_div_mod_converse(x, r, 0, x);
    } else {
        vstd::arithmetic::div_mod::lemma_fundamental_div_mod_converse(x, r, -1, x + r);
    }
}

/// While no sum leaves 64-bit cents, a mock checkout's gross is every line's
/// unit amount times its quantity, added up: no line is left out or counted
/// twice.
pub proof fn lemma_gross_charges_every_line(lines: Seq<crate::square::LineItemPush>)
    requires
        forall|k: int| 0 <= k <= lines.len() ==> i64::MIN <= #[trigger] charges_of(lines.take(k)) <= i64::MAX,
        forall|i: int| 0 <= i < lines.len() ==> i64::MIN <= (#[trigger] lines[i]).unit_amount_cents * lines[i].quantity <= i64::MAX,
    ensures
        gross(lines) == charges_of(lines),
    decreases lines.len(),
{
    if lines.len() > 0 {
        let d = lines.drop_last();
        let l = lines.last();
        assert forall|k: int| 0 <= k <= d.len() implies i64::MIN <= #[trigger] charges_of(d.take(k)) <= i64::MAX by {
            assert(d.take(k) =~= lines.take(k));
        }
        assert forall|i: int| 0 <= i < d.len() implies i64::MIN <= (#[trigger] d[i]).unit_amount_cents * d[i].quantity <= i64::MAX by {
            assert(d[i] == lines[i]);
        }
        lemma_gross_charges_every_line(d);
        assert(lines.take(lines.len() as int) =~= lines);
        assert(lines.take(d.len() as int) =~= d);
        assert(l == lines[lines.len() - 1]);
        let prod = l.unit_amount_cents * l.quantity;
        assert(prod == l.unit_amount_cents * (l.quantity as i64));
        lemma_crop_in_range(prod);
    }
}

/// While no sum leaves 64-bit cents, the discounts a mock checkout takes off
/// are every discount's amount, added up.
pub proof fn lemma_discounts_counts_every_discount(ds: Seq<crate::square::DiscountPush>)
    requires
        forall|k: int| 0 <= k <= ds.len() ==> i64::MIN <= #[trigger] discounts_of(ds.take(k)) <= i64::MAX,
    ensures
        discounted(ds) == discounts_of(ds),
    decreases ds.len(),
{
    if ds.len() > 0 {
        let d = ds.drop_last();
        assert forall|k: int| 0 <= k <= d.len() implies i64::MIN <= #[trigger] discounts_of(d.take(k)) <= i64::MAX by {
            assert(d.take(k) =~= ds.take(k));
        }
        lemma_discounts_counts_every_discount(d);
        assert(ds.take(ds.len() as int) =~= ds);
    }
}

/// While no sum leaves 64-bit cents, a mock checkout records a payment for
/// the lines (each unit amount times its quantity) less the discounts, and
/// never for less than nothing.
pub proof fn lemma_checkout_total_is_lines_less_discounts(push: CheckoutPush)
    requires
        forall|k: int| 0 <= k <= push.line_items@.len() ==> i64::MIN <= #[trigger] charges_of(push.line_items@.take(k)) <= i64::MAX,
        forall|i: int| 0 <= i < push.line_items@.len() ==> i64::MIN <= (#[trigger] push.line_items@[i]).unit_amount_cents
            * push.line_items@[i].quantity <= i64::MAX,
        forall|k: int| 0 <= k <= push.discounts@.len() ==> i64::MIN <= #[trigger] discounts_of(push.discounts@.take(k)) <= i64::MAX,
        i64::MIN <= charges_of(push.line_items@) - discounts_of(push.discounts@) <= i64::MAX,
    ensures
        checkout_total(push) == if charges_of(push.line_items@) > discounts_of(push.discounts@) {
            charges_of(push.line_items@) - discounts_of(push.discounts@)
        } else {
            0
        },
{
    lemma_gross_charges_every_line(push.line_items@);
    lemma_discounts_counts_every_discount(push.discounts@);
}

/// A payment is inside `[begin, end]`.
pub open spec fn in_window(p: RemotePayment, begin: i64, end: i64) -> bool {
    begin <= p.created_at && p.created_at <= end
}

/// What a checkout of `push` does to the payments: it files one COMPLETED
/// payment for the cart total under the id derived from the cart, settling the
/// order derived from the cart, and leaves every other payment as it was.
pub open spec fn checked_out(before: Store, after: Store, push: CheckoutPush) -> bool {
    let h = spec_id_simple(push.cart_id);
    let p = after[pay_id(h)];
    &&& after.contains_key(pay_id(h))
    &&& after.remove(pay_id(h)) == before.remove(pay_id(h))
    &&& p.payment_id@ == pay_id(h)
    &&& p.settles(order_id(h))
    &&& p.status@ == "COMPLETED"@
    &&& p.amount_cents == checkout_total(push)
    &&& p.currency == push.currency
    &&& p.refunded_cents == 0
}

/// Every payment is filed under its own id and settles the order derived from
/// the same cart as that id.
pub open spec fn well_keyed(s: Store) -> bool {
    forall|k: Seq<char>| #[trigger] s.contains_key(k) ==> s[k].payment_id@ == k && derived(s[k])
}

proof fn lemma_suffix_cancels(a: Seq<char>, x: Seq<char>, y: Seq<char>)
    requires
        a + x == a + y,
    ensures
        x == y,
{
    assert(x =~= (a + x).subrange(a.len() as int, (a + x).len() as int));
    assert(y =~= (a + y).subrange(a.len() as int, (a + y).len() as int));
}

/// A mock order is settled by at most one recorded payment.
pub proof fn lemma_one_payment_per_order(s: Store, a: Seq<char>, b: Seq<char>, order: Seq<char>)
    requires
        well_keyed(s),
        s.contains_key(a),
        s.contains_key(b),
        s[a].settles(order),
        s[b].settles(order),
    ensures
        a == b,
{
    let ha = choose|h: Seq<char>| h.len() == 32 && #[trigger] pay_id(h) == s[a].payment_id@ && s[a].settles(order_id(h));
    let hb = choose|h: Seq<char>| h.len() == 32 && #[trigger] pay_id(h) == s[b].payment_id@ && s[b].settles(order_id(h));
    assert(order_id(ha) == order && order_id(hb) == order);
    lemma_suffix_cancels("mock_ord_"@, ha, hb);
}

/// After a checkout, the only recorded payment that settles the order it
/// created is the one it filed: for the cart total, completed.
pub proof fn lemma_checkout_then_find(before: Store, after: Store, push: CheckoutPush, k: Seq<char>)
    requires
        well_keyed(after),
        checked_out(before, after, push),
        after.contains_key(k),
        after[k].settles(order_id(spec_id_simple(push.cart_id))),
    ensures
        k == pay_id(spec_id_simple(push.cart_id)),
        after[k].amount_cents == checkout_total(push),
        after[k].completed(),
{
    let h = spec_id_simple(push.cart_id);
    lemma_one_payment_per_order(after, k, pay_id(h), order_id(h));
}

/// Checking out the same cart again files no second payment.
pub proof fn lemma_repeat_checkout(s0: Store, s1: Store, s2: Store, push: CheckoutPush)
    requires
        checked_out(s0, s1, push),
        checked_out(s1, s2, push),
    ensures
        s2.dom() == s1.dom(),
{
    let k = pay_id(spec_id_simple(push.cart_id));
    assert forall|x: Seq<char>| s2.contains_key(x) <==> s1.contains_key(x) by {
        if x != k {
            assert(s2.remove(k).contains_key(x) == s2.contains_key(x));
            assert(s1.remove(k).contains_key(x) == s1.contains_key(x));
        }
    }
    assert(s2.dom() =~= s1.dom());
}

/// Voiding the link a checkout handed out leaves no recorded payment that
/// settles its order.
pub proof fn lemma_void_after_checkout(before: Store, after: Store, voided: Store, push: CheckoutPush, k: Seq<char>)
    requires
        well_keyed(after),
        checked_out(before, after, push),
        voided == after.remove(pay_id(voided_suffix(link_id(spec_id_simple(push.cart_id))))),
        voided.contains_key(k),
    ensures
        !voided[k].settles(order_id(spec_id_simple(push.cart_id))),
{
    let h = spec_id_simple(push.cart_id);
    let l = link_id(h);
    assert(has_prefix(l, "mock_link_"@)) by {
        assert(l.subrange(0, "mock_link_"@.len() as int) =~= "mock_link_"@);
    }
    assert(voided_suffix(l) =~= h);
    if voided[k].settles(order_id(h)) {
        lemma_one_payment_per_order(after, k, pay_id(h), order_id(h));
    }
}

/// `r` lists the payments of `s` created inside `[begin, end]`: each as
/// stored, every one of them, and each once.
pub open spec fn listed_window(s: Store, begin: i64, end: i64, r: Seq<RemotePayment>) -> bool {
    &&& forall|i: int| 0 <= i < r.len() ==> s.contains_key((#[trigger] r[i]).payment_id@)
        && s[r[i].payment_id@] == r[i] && in_window(r[i], begin, end)
    &&& forall|k: Seq<char>| #[trigger] s.contains_key(k) && in_window(s[k], begin, end)
        ==> exists|i: int| 0 <= i < r.len() && (#[trigger] r[i]).payment_id@ == k
    &&& unique_ids(r)
}

/// Checking out the same cart twice on a fresh mock leaves exactly one
/// payment: any window lists it once if it was created inside the window, and
/// lists nothing otherwise.
pub proof fn lemma_repeat_checkout_lists_once(
    s1: Store,
    s2: Store,
    push: CheckoutPush,
    begin: i64,
    end: i64,
    r: Seq<RemotePayment>,
)
    requires
        checked_out(Store::empty(), s1, push),
        checked_out(s1, s2, push),
        listed_window(s2, begin, end, r),
    ensures
        s2.dom() == set![pay_id(spec_id_simple(push.cart_id))],
        in_window(s2[pay_id(spec_id_simple(push.cart_id))], begin, end) ==> r.len() == 1
            && r[0] == s2[pay_id(spec_id_simple(push.cart_id))],
        !in_window(s2[pay_id(spec_id_simple(push.cart_id))], begin, end) ==> r.len() == 0,
{
    let k = pay_id(spec_id_simple(push.cart_id));
    assert(s1.remove(k) =~= Store::empty());
    assert(s2.remove(k) =~= Store::empty());
    assert forall|x: Seq<char>| s2.contains_key(x) implies x == k by {
        if x != k {
            assert(s2.remove(k).contains_key(x));
        }
    }
    assert(s2.dom() =~= set![k]);
    assert forall|j: int| 0 <= j < r.len() implies #[trigger] r[j].payment_id@ == k && in_window(s2[k], begin, end) by {
        assert(s2.contains_key(r[j].payment_id@));
    }
    if in_window(s2[k], begin, end) {
        assert(s2.contains_key(k));
        let i = choose|i: int| 0 <= i < r.len() && (#[trigger] r[i]).payment_id@ == k;
        assert forall|j: int| 0 <= j < r.len() implies (#[trigger] r[j]).payment_id@ == k && j == i by {
            assert(r[j].payment_id@ == k);
        }
        if r.len() > 1 {
            let other = if i == 0 { 1int } else { 0int };
            assert(r[other].payment_id@ == k);
        }
        assert(r[0].payment_id@ == k);
    } else {
        if r.len() > 0 {
            assert(r[0].payment_id@ == k);
        }
    }
}

proof fn lemma_to_map_keys(s: Seq<RemotePayment>)
    ensures
        forall|k: Seq<char>| to_map(s).contains_key(k) <==> exists|i: int| 0 <= i < s.len() && (#[trigger] s[i]).payment_id@ == k,
    decreases s.len(),
{
    if s.len() > 0 {
        let d = s.drop_last();
        lemma_to_map_keys(d);
        assert forall|k: Seq<char>| to_map(s).contains_key(k) <==> exists|i: int| 0 <= i < s.len() && (#[trigger] s[i]).payment_id@ == k by {
            if to_map(s).contains_key(k) {
                if k == s.last().payment_id@ {
                    assert(s[s.len() - 1].payment_id@ == k);
                } else {
                    assert(to_map(d).contains_key(k));
                    let i = choose|i: int| 0 <= i < d.len() && (#[trigger] d[i]).payment_id@ == k;
                    assert(s[i] == d[i]);
                }
            }
            if exists|i: int| 0 <= i < s.len() && (#[trigger] s[i]).payment_id@ == k {
                let i = choose|i: int| 0 <= i < s.len() && (#[trigger] s[i]).payment_id@ == k;
                if i < s.len() - 1 {
                    assert(d[i] == s[i]);
                    assert(to_map(d).contains_key(k));
                }
            }
        }
    }
}

proof fn lemma_to_map_value(s: Seq<RemotePayment>, i: int)
    requires
        unique_ids(s),
        0 <= i < s.len(),
    ensures
        to_map(s).contains_key(s[i].payment_id@),
        to_map(s)[s[i].payment_id@] == s[i],
    decreases s.len(),
{
    lemma_to_map_keys(s);
    if i < s.len() - 1 {
        let d = s.drop_last();
        assert(d[i] == s[i]);
        assert(unique_ids(d)) by {
            assert forall|a: int, b: int| 0 <= a < d.len() && 0 <= b < d.len() && a != b implies (#[trigger] d[a]).payment_id@
                != (#[trigger] d[b]).payment_id@ by {
                assert(d[a] == s[a] && d[b] == s[b]);
            }
        }
        lemma_to_map_value(d, i);
        assert(s[i].payment_id@ != s.last().payment_id@);
    }
}

proof fn lemma_unique_drop_last(s: Seq<RemotePayment>)
    requires
        unique_ids(s),
        s.len() > 0,
    ensures
        unique_ids(s.drop_last()),
{
    let d = s.drop_last();
    assert forall|a: int, b: int| 0 <= a < d.len() && 0 <= b < d.len() && a != b implies (#[trigger] d[a]).payment_id@
        != (#[trigger] d[b]).payment_id@ by {
        assert(d[a] == s[a] && d[b] == s[b]);
    }
}

proof fn lemma_to_map_remove(s: Seq<RemotePayment>, i: int)
    requires
        unique_ids(s),
        0 <= i < s.len(),
    ensures
        to_map(s.remove(i)) =~= to_map(s).remove(s[i].payment_id@),
        unique_ids(s.remove(i)),
    decreases s.len(),
{
    let d = s.drop_last();
    let k = s[i].payment_id@;
    lemma_unique_drop_last(s);
    let r = s.remove(i);
    assert(unique_ids(r)) by {
        assert forall|a: int, b: int| 0 <= a < r.len() && 0 <= b < r.len() && a != b implies (#[trigger] r[a]).payment_id@
            != (#[trigger] r[b]).payment_id@ by {
            let a2 = if a < i { a } else { a + 1 };
            let b2 = if b < i { b } else { b + 1 };
            assert(r[a] == s[a2] && r[b] == s[b2]);
        }
    }
    if i == s.len() - 1 {
        assert(r =~= d);
        lemma_to_map_keys(d);
        assert(!to_map(d).contains_key(k)) by {
            if to_map(d).contains_key(k) {
                let j = choose|j: int| 0 <= j < d.len() && (#[trigger] d[j]).payment_id@ == k;
                assert(d[j] == s[j]);
            }
        }
        assert(to_map(d).insert(k, s.last()).remove(k) =~= to_map(d));
    } else {
        lemma_to_map_remove(d, i);
        assert(r =~= d.remove(i).push(s.last()));
        assert(d.remove(i).push(s.last()).drop_last() =~= d.remove(i));
        assert(s.last().payment_id@ != k);
        assert(to_map(r) == to_map(d.remove(i)).insert(s.last().payment_id@, s.last()));
    }
}

/// The sum of the lines.
fn sum_lines(push: &CheckoutPush) -> (r: i64)
    ensures
        r == gross(push.line_items@),
{
    let mut total: i64 = 0;
    let mut i: usize = 0;
    while i < push.line_items.len()
        invariant
            i <= push.line_items@.len(),
            total == gross(push.line_items@.take(i as int)),
        decreases push.line_items@.len() - i,
    {
        let li = &push.line_items[i];
        proof {
            assert(push.line_items@.take(i + 1).drop_last() =~= push.line_items@.take(i as int));
            assert(push.line_items@.take(i + 1).last() == push.line_items@[i as int]);
        }
        total = total.wrapping_add(li.unit_amount_cents.wrapping_mul(li.quantity as i64));
        i = i + 1;
    }
    proof {
        assert(push.line_items@.take(push.line_items@.len() as int) =~= push.line_items@);
    }
    total
}

/// The sum of the discounts.
fn sum_discounts(push: &CheckoutPush) -> (r: i64)
    ensures
        r == discounted(push.discounts@),
{
    let mut total: i64 = 0;
    let mut i: usize = 0;
    while i < push.discounts.len()
        invariant
            i <= push.discounts@.len(),
            total == discounted(push.discounts@.take(i as int)),
        decreases push.discounts@.len() - i,
    {
        proof {
            assert(push.discounts@.take(i + 1).drop_last() =~= push.discounts@.take(i as int));
            assert(push.discounts@.take(i + 1).last() == push.discounts@[i as int]);
        }
        total = total.wrapping_add(push.discounts[i].amount_cents);
        i = i + 1;
    }
    proof {
        assert(push.discounts@.take(push.discounts@.len() as int) =~= push.discounts@);
    }
    total
}

fn prefixed(prefix: &str, h: &String) -> (r: String)
    ensures
        r@ == prefix@ + h@,
{
    let mut s = String::new();
    push_str(&mut s, prefix);
    push_str(&mut s, h.as_str());
    s
}

impl MockSquare {
    pub closed spec fn wf(&self) -> bool {
        &&& unique_ids(self.payments@)
        &&& forall|i: int| 0 <= i < self.payments@.len() ==> derived(#[trigger] self.payments@[i])
    }

    /// The recorded payments, by id.
    pub closed spec fn store(&self) -> Store {
        to_map(self.payments@)
    }

    /// Every stored payment is filed under its own id, and settles the mock
    /// order derived from the same cart.
    pub proof fn lemma_store_shape(&self)
        requires
            self.wf(),
        ensures
            well_keyed(self.store()),
    {
        lemma_to_map_keys(self.payments@);
        assert forall|k: Seq<char>| #[trigger] self.store().contains_key(k) implies self.store()[k].payment_id@ == k && derived(self.store()[k]) by {
            let i = choose|i: int| 0 <= i < self.payments@.len() && (#[trigger] self.payments@[i]).payment_id@ == k;
            lemma_to_map_value(self.payments@, i);
        }
    }

    pub fn new() -> (m: MockSquare)
        ensures
            m.wf(),
            m.store() == Store::empty(),
    {
        MockSquare { payments: Vec::new() }
    }

    pub fn name(&self) -> (r: &'static str)
        ensures
            r@ == "mock"@,
    {
        "mock"
    }

    /// Never live: nobody is actually charged.
    pub fn is_live(&self) -> (r: bool)
        ensures
            !r,
    {
        false
    }

    /// Store `p`, replacing any payment with the same id.
    fn record(&mut self, p: RemotePayment)
        requires
            old(self).wf(),
            derived(p),
        ensures
            final(self).wf(),
            final(self).store() =~= old(self).store().insert(p.payment_id@, p),
    {
        let ghost s0 = self.payments@;
        let mut i: usize = 0;
        let mut found: Option<usize> = None;
        while i < self.payments.len()
            invariant
                i <= self.payments@.len(),
                self.payments@ == s0,
                match found {
                    Some(k) => k < s0.len() && s0[k as int].payment_id@ == p.payment_id@,
                    None => forall|j: int| 0 <= j < i ==> (#[trigger] s0[j]).payment_id@ != p.payment_id@,
                },
            decreases self.payments@.len() - i,
        {
            if found.is_none() && self.payments[i].payment_id == p.payment_id {
                found = Some(i);
            }
            i = i + 1;
        }
        match found {
            Some(k) => {
                proof {
                    lemma_to_map_remove(s0, k as int);
                }
                self.payments.remove(k);
            },
            None => {
                proof {
                    lemma_to_map_keys(s0);
                    assert(!to_map(s0).contains_key(p.payment_id@));
                    assert(to_map(s0).remove(p.payment_id@) =~= to_map(s0));
                }
            },
        }
        let ghost s1 = self.payments@;
        proof {
            lemma_to_map_keys(s1);
            assert forall|j: int| 0 <= j < s1.len() implies (#[trigger] s1[j]).payment_id@ != p.payment_id@ by {
                if s1[j].payment_id@ == p.payment_id@ {
                    assert(to_map(s1).contains_key(p.payment_id@));
                }
            }
            assert(forall|j: int| 0 <= j < s1.len() ==> derived(#[trigger] s1[j])) by {
                assert forall|j: int| 0 <= j < s1.len() implies derived(#[trigger] s1[j]) by {
                    match found {
                        Some(k) => {
                            let j2 = if j < k { j } else { j + 1 };
                            assert(s1[j] == s0[j2]);
                        },
                        None => {},
                    }
                }
            }
        }
        self.payments.push(p);
        proof {
            let s2 = self.payments@;
            assert(s2.drop_last() =~= s1);
            assert forall|a: int, b: int| 0 <= a < s2.len() && 0 <= b < s2.len() && a != b implies (#[trigger] s2[a]).payment_id@
                != (#[trigger] s2[b]).payment_id@ by {
                if a < s1.len() && b < s1.len() {
                    assert(s2[a] == s1[a] && s2[b] == s1[b]);
                } else if a < s1.len() {
                    assert(s2[a] == s1[a]);
                } else {
                    assert(s2[b] == s1[b]);
                }
            }
            assert forall|j: int| 0 <= j < s2.len() implies derived(#[trigger] s2[j]) by {
                if j < s1.len() {
                    assert(s2[j] == s1[j]);
                }
            }
            assert(to_map(s2) == to_map(s1).insert(p.payment_id@, p));
        }
    }

    /// Record a COMPLETED payment for the cart's total and hand back a link.
    /// The ids are derived from the cart, so re-running a checkout is stable,
    /// and the URL is deliberately not a working one.
    pub fn create_checkout(&mut self, push: &CheckoutPush) -> (r: Result<CheckoutHandle, SquareError>)
        requires
            old(self).wf(),
        ensures
            final(self).wf(),
            push.line_items@.len() == 0 ==> (r matches Err(SquareError::Config(m)) && m@ == "cannot check out an empty cart"@
                && final(self).store() == old(self).store()),
            push.line_items@.len() > 0 ==> ({
                let h = spec_id_simple(push.cart_id);
                &&& r matches Ok(handle)
                &&& handle.payment_link_id@ == link_id(h)
                &&& handle.square_order_id@ == order_id(h)
                &&& handle.url@ == "https://example.invalid/mock-checkout/"@ + h
                &&& checked_out(old(self).store(), final(self).store(), *push)
            }),
    {
        if push.line_items.len() == 0 {
            return Err(SquareError::Config(String::from_str("cannot check out an empty cart")));
        }
        let gross = sum_lines(push);
        let discounted = sum_discounts(push);
        let net = gross.wrapping_sub(discounted);
        let total = if net > 0 { net } else { 0 };

        let short = id_simple(push.cart_id);
        proof {
            crate::ident::lemma_hex_fixed_len(push.cart_id as nat, 32);
        }
        let square_order_id = prefixed("mock_ord_", &short);
        let payment_id = prefixed("mock_pay_", &short);
        let payment = RemotePayment {
            payment_id: payment_id.clone(),
            square_order_id: Some(square_order_id.clone()),
            status: String::from_str("COMPLETED"),
            amount_cents: total,
            currency: push.currency.clone(),
            created_at: now_micros(),
            refunded_cents: 0,
        };
        proof {
            assert(pay_id(short@) == payment.payment_id@ && payment.settles(order_id(short@)));
        }
        self.record(payment);
        proof {
            assert(self.store().remove(pay_id(short@)) =~= old(self).store().remove(pay_id(short@)));
        }
        Ok(CheckoutHandle {
            payment_link_id: prefixed("mock_link_", &short),
            square_order_id,
            url: prefixed("https://example.invalid/mock-checkout/", &short),
        })
    }

    /// The payment with this id.
    pub fn get_payment(&self, payment_id: &str) -> (r: Result<RemotePayment, SquareError>)
        requires
            self.wf(),
        ensures
            self.store().contains_key(payment_id@) ==> (r matches Ok(p) && p == self.store()[payment_id@]),
            !self.store().contains_key(payment_id@) ==> (r matches Err(SquareError::Config(m)) && m@
                == "mock: unknown payment "@ + payment_id@),
    {
        proof {
            lemma_to_map_keys(self.payments@);
        }
        let mut i: usize = 0;
        while i < self.payments.len()
            invariant
                i <= self.payments@.len(),
                self.wf(),
                forall|j: int| 0 <= j < i ==> (#[trigger] self.payments@[j]).payment_id@ != payment_id@,
            decreases self.payments@.len() - i,
        {
            if crate::text::str_eq(self.payments[i].payment_id.as_str(), payment_id) {
                proof {
                    lemma_to_map_value(self.payments@, i as int);
                }
                return Ok(clone_payment(&self.payments[i]));
            }
            i = i + 1;
        }
        let mut m = String::new();
        push_str(&mut m, "mock: unknown payment ");
        push_str(&mut m, payment_id);
        Err(SquareError::Config(m))
    }

    /// The payment settled against a mock order, if any.
    pub fn find_payment_for_order(&self, square_order_id: &str) -> (r: Option<RemotePayment>)
        requires
            self.wf(),
        ensures
            r matches Some(p) ==> self.store().contains_key(p.payment_id@) && self.store()[p.payment_id@] == p
                && p.settles(square_order_id@),
            r is None ==> forall|k: Seq<char>| #[trigger] self.store().contains_key(k) ==> !self.store()[k].settles(square_order_id@),
    {
        proof {
            lemma_to_map_keys(self.payments@);
        }
        let mut i: usize = 0;
        while i < self.payments.len()
            invariant
                i <= self.payments@.len(),
                self.wf(),
                forall|j: int| 0 <= j < i ==> !(#[trigger] self.payments@[j]).settles(square_order_id@),
            decreases self.payments@.len() - i,
        {
            let hit = match &self.payments[i].square_order_id {
                Some(o) => crate::text::str_eq(o.as_str(), square_order_id),
                None => false,
            };
            if hit {
                proof {
                    lemma_to_map_value(self.payments@, i as int);
                }
                return Some(clone_payment(&self.payments[i]));
            }
            i = i + 1;
        }
        proof {
            assert forall|k: Seq<char>| #[trigger] self.store().contains_key(k) implies !self.store()[k].settles(square_order_id@) by {
                let j = choose|j: int| 0 <= j < self.payments@.len() && (#[trigger] self.payments@[j]).payment_id@ == k;
                lemma_to_map_value(self.payments@, j);
            }
        }
        None
    }

    /// Every payment created inside `[begin, end]`, each once.
    pub fn list_payments(&self, begin: i64, end: i64) -> (r: Vec<RemotePayment>)
        requires
            self.wf(),
        ensures
            listed_window(self.store(), begin, end, r@),
    {
        proof {
            lemma_to_map_keys(self.payments@);
        }
        let mut out: Vec<RemotePayment> = Vec::new();
        let ghost mut src: Seq<int> = seq![];
        let mut i: usize = 0;
        while i < self.payments.len()
            invariant
                i <= self.payments@.len(),
                self.wf(),
                src.len() == out@.len(),
                forall|x: int| 0 <= x < src.len() ==> 0 <= #[trigger] src[x] < i && out@[x] == self.payments@[src[x]],
                forall|x: int, y: int| 0 <= x < y < src.len() ==> #[trigger] src[x] < #[trigger] src[y],
                forall|j: int| 0 <= j < i && in_window(#[trigger] self.payments@[j], begin, end) ==> exists|x: int|
                    0 <= x < src.len() && src[x] == j,
                forall|x: int| 0 <= x < out@.len() ==> in_window(#[trigger] out@[x], begin, end),
            decreases self.payments@.len() - i,
        {
            let p = &self.payments[i];
            if p.created_at >= begin && p.created_at <= end {
                out.push(clone_payment(p));
                proof {
                    let ghost before = src;
                    src = src.push(i as int);
                    assert forall|j: int| 0 <= j <= i && in_window(#[trigger] self.payments@[j], begin, end) implies exists|x: int|
                        0 <= x < src.len() && src[x] == j by {
                        if j < i {
                            let x = choose|x: int| 0 <= x < before.len() && before[x] == j;
                            assert(src[x] == before[x]);
                        } else {
                            assert(src[src.len() - 1] == j);
                        }
                    }
                }
            }
            i = i + 1;
        }
        proof {
            assert forall|x: int| 0 <= x < out@.len() implies self.store().contains_key((#[trigger] out@[x]).payment_id@)
                && self.store()[out@[x].payment_id@] == out@[x] && in_window(out@[x], begin, end) by {
                lemma_to_map_value(self.payments@, src[x]);
            }
            assert forall|k: Seq<char>| #[trigger] self.store().contains_key(k) && in_window(self.store()[k], begin, end)
                implies exists|x: int| 0 <= x < out@.len() && (#[trigger] out@[x]).payment_id@ == k by {
                let j = choose|j: int| 0 <= j < self.payments@.len() && (#[trigger] self.payments@[j]).payment_id@ == k;
                lemma_to_map_value(self.payments@, j);
                let x = choose|x: int| 0 <= x < src.len() && src[x] == j;
                assert(out@[x].payment_id@ == k);
            }
            assert forall|a: int, b: int| 0 <= a < out@.len() && 0 <= b < out@.len() && a != b implies (#[trigger] out@[a]).payment_id@
                != (#[trigger] out@[b]).payment_id@ by {
                assert(src[a] != src[b]) by {
                    if a < b {
                        assert(src[a] < src[b]);
                    } else {
                        assert(src[b] < src[a]);
                    }
                }
            }
        }
        out
    }

    /// Void a payment link: drop the payment it would have settled, so a
    /// canceled cart stops showing up as paid. Always succeeds — a link that is
    /// already gone is the desired end state.
    pub fn void_checkout(&mut self, payment_link_id: &str) -> (r: Result<(), SquareError>)
        requires
            old(self).wf(),
        ensures
            r is Ok,
            final(self).wf(),
            final(self).store() == old(self).store().remove(pay_id(voided_suffix(payment_link_id@))),
    {
        let short = if starts_with(payment_link_id, "mock_link_") {
            let n = payment_link_id.unicode_len();
            proof {
                assert("mock_link_"@.len() == 10) by {
                    reveal_strlit("mock_link_");
                }
            }
            String::from_str(payment_link_id.substring_char(10, n))
        } else {
            String::new()
        };
        let target = prefixed("mock_pay_", &short);
        let ghost s0 = self.payments@;
        let mut i: usize = 0;
        let mut found: Option<usize> = None;
        while i < self.payments.len()
            invariant
                i <= self.payments@.len(),
                self.payments@ == s0,
                match found {
                    Some(k) => k < s0.len() && s0[k as int].payment_id@ == target@,
                    None => forall|j: int| 0 <= j < i ==> (#[trigger] s0[j]).payment_id@ != target@,
                },
            decreases self.payments@.len() - i,
        {
            if found.is_none() && self.payments[i].payment_id == target {
                found = Some(i);
            }
            i = i + 1;
        }
        match found {
            Some(k) => {
                proof {
                    lemma_to_map_remove(s0, k as int);
                }
                self.payments.remove(k);
                proof {
                    let s1 = self.payments@;
                    assert forall|j: int| 0 <= j < s1.len() implies derived(#[trigger] s1[j]) by {
                        let j2 = if j < k { j } else { j + 1 };
                        assert(s1[j] == s0[j2]);
                    }
                }
            },
            None => {
                proof {
                    lemma_to_map_keys(s0);
                    assert(to_map(s0).remove(target@) =~= to_map(s0));
                }
            },
        }
        Ok(())
    }

    /// The mock customer id derived from ours.
    pub fn upsert_customer(&self, customer: &CustomerPush) -> (r: Result<String, SquareError>)
        ensures
            r matches Ok(id) && id@ == "mock_cus_"@ + spec_id_simple(customer.id),
    {
        let short = id_simple(customer.id);
        Ok(prefixed("mock_cus_", &short))
    }
}

impl Default for MockSquare {
    /// An empty store.
    fn default() -> (m: MockSquare)
        ensures
            m.wf(),
            m.store() == Store::empty(),
    {
        MockSquare::new()
    }
}

/// What `void_checkout` takes a link id to point at: the part after
/// `mock_link_`, or nothing for a link the mock did not make.
pub open spec fn voided_suffix(link: Seq<char>) -> Seq<char> {
    if has_prefix(link, "mock_link_"@) {
        link.subrange("mock_link_"@.len() as int, link.len() as int)
    } else {
        Seq::empty()
    }
}

fn clone_payment(p: &RemotePayment) -> (r: RemotePayment)
    ensures
        r == *p,
{
    RemotePayment {
        payment_id: p.payment_id.clone(),
        square_order_id: match &p.square_order_id {
            Some(o) => Some(o.clone()),
            None => None,
        },
        status: p.status.clone(),
        amount_cents: p.amount_cents,
        currency: p.currency.clone(),
        created_at: p.created_at,
        refunded_cents: p.refunded_cents,
    }
}

} // verus!
