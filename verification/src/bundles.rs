//! Package deals: a named set of bottles sold for one headline price. The
//! price lives on the package; what each component is worth decides how that
//! price is split across the orders, so the history and the cart add up.

use vstd::prelude::*;
use crate::checkout::convertible;
use crate::error::AppError;
use crate::money::{spec_to_cents, to_cents, Amount};
use crate::order::{BottleSize, OrderType};
use crate::text::{blank, is_blank, push_str};

verus! {

/// A package holds at most this many components.
pub const MAX_COMPONENTS: usize = 12;

#[derive(Debug)]
pub struct Bundle {
    pub id: u128,
    pub name: String,
    pub description: Option<String>,
    pub price: Amount,
    pub active: bool,
}

#[derive(Debug)]
pub struct BundleItem {
    pub id: u128,
    pub bundle_id: u128,
    pub position: i32,
    pub item_type: OrderType,
    pub size: BottleSize,
    pub scent_id: Option<u128>,
    pub quantity: i32,
}

#[derive(Debug)]
pub struct BundleDetail {
    pub bundle: Bundle,
    pub items: Vec<BundleItem>,
}

/// One component of a package, as an admin defines it.
#[derive(Debug, Clone, Copy)]
pub struct BundleItemInput {
    pub item_type: OrderType,
    pub size: BottleSize,
    pub scent_id: Option<u128>,
    pub quantity: i32,
}

#[derive(Debug)]
pub struct UpsertBundle {
    pub name: String,
    pub description: Option<String>,
    pub price: Amount,
    pub items: Vec<BundleItemInput>,
    pub active: Option<bool>,
}

/// Why one component is refused, if it is. A set perfume needs a named scent,
/// or intake has nothing to sell; a custom blend cannot name one.
pub open spec fn item_error(item: BundleItemInput) -> Option<Seq<char>> {
    if item.quantity < 1 {
        Some("quantity must be at least 1"@)
    } else if item.item_type == OrderType::SetPerfume && item.scent_id is None {
        Some("choose a scent for each set-perfume item"@)
    } else if item.item_type == OrderType::CustomMix && item.scent_id is Some {
        Some("a custom-blend item can't name a scent"@)
    } else {
        None
    }
}

/// The first component error among the first `n`, in order.
pub open spec fn first_item_error(items: Seq<BundleItemInput>, n: nat) -> Option<Seq<char>>
    decreases n,
{
    if n == 0 {
        None
    } else if first_item_error(items, (n - 1) as nat) is Some {
        first_item_error(items, (n - 1) as nat)
    } else {
        item_error(items[n - 1])
    }
}

/// Why a package definition is refused, if it is.
pub open spec fn bundle_error(b: UpsertBundle) -> Option<Seq<char>> {
    if is_blank(b.name@) {
        Some("a package needs a name"@)
    } else if b.price.is_below_zero() {
        Some("price can't be negative"@)
    } else if b.items@.len() == 0 {
        Some("a package needs at least one item in it"@)
    } else if b.items@.len() > MAX_COMPONENTS {
        Some("a package is limited to 12 items"@)
    } else {
        first_item_error(b.items@, b.items@.len())
    }
}

fn check_item(item: &BundleItemInput) -> (r: Result<(), AppError>)
    ensures
        match item_error(*item) {
            Some(m) => r matches Err(AppError::BadRequest(x)) && x@ == m,
            None => r is Ok,
        },
{
    if item.quantity < 1 {
        return Err(AppError::BadRequest(String::from_str("quantity must be at least 1")));
    }
    match item.item_type {
        OrderType::SetPerfume => {
            if item.scent_id.is_none() {
                return Err(AppError::BadRequest(String::from_str("choose a scent for each set-perfume item")));
            }
        },
        OrderType::CustomMix => {
            if item.scent_id.is_some() {
                return Err(AppError::BadRequest(String::from_str("a custom-blend item can't name a scent")));
            }
        },
    }
    Ok(())
}

/// The checks a package definition passes before it is written.
pub fn validate(body: &UpsertBundle) -> (r: Result<(), AppError>)
    ensures
        match bundle_error(*body) {
            Some(m) => r matches Err(AppError::BadRequest(x)) && x@ == m,
            None => r is Ok,
        },
{
    if blank(body.name.as_str()) {
        return Err(AppError::BadRequest(String::from_str("a package needs a name")));
    }
    if body.price.negative && body.price.mantissa > 0 {
        return Err(AppError::BadRequest(String::from_str("price can't be negative")));
    }
    if body.items.len() == 0 {
        return Err(AppError::BadRequest(String::from_str("a package needs at least one item in it")));
    }
    if body.items.len() > MAX_COMPONENTS {
        return Err(AppError::BadRequest(String::from_str("a package is limited to 12 items")));
    }
    let mut i: usize = 0;
    while i < body.items.len()
        invariant
            i <= body.items@.len(),
            first_item_error(body.items@, i as nat) is None,
            bundle_error(*body) == first_item_error(body.items@, body.items@.len()),
        decreases body.items@.len() - i,
    {
        match check_item(&body.items[i]) {
            Ok(()) => {},
            Err(e) => {
                proof {
                    assert(first_item_error(body.items@, (i + 1) as nat) == item_error(body.items@[i as int]));
                    lemma_first_error_stays(body.items@, (i + 1) as nat, body.items@.len());
                }
                return Err(e);
            },
        }
        proof {
            assert(first_item_error(body.items@, (i + 1) as nat) == item_error(body.items@[i as int]));
        }
        i = i + 1;
    }
    Ok(())
}

/// Once an error is found among the first `n` components, it stays the first.
proof fn lemma_first_error_stays(items: Seq<BundleItemInput>, n: nat, m: nat)
    requires
        n <= m,
        first_item_error(items, n) is Some,
    ensures
        first_item_error(items, m) == first_item_error(items, n),
    decreases m - n,
{
    if n < m {
        lemma_first_error_stays(items, n, (m - 1) as nat);
    }
}

/// A package with a quoted name, for the messages below.
pub open spec fn quoted(name: Seq<char>) -> Seq<char> {
    "the \""@ + name + "\" package"@
}

fn message(name: &str, tail: &str) -> (r: String)
    ensures
        r@ == quoted(name@) + tail@,
{
    let mut m = String::new();
    push_str(&mut m, "the \"");
    push_str(&mut m, name);
    push_str(&mut m, "\" package");
    push_str(&mut m, tail);
    proof {
        assert(m@ =~= quoted(name@) + tail@);
    }
    m
}

/// A package can be applied at intake only while it is offered and has
/// something in it.
pub fn check_offered(name: &str, active: bool, components: usize) -> (r: Result<(), AppError>)
    ensures
        !active ==> (r matches Err(AppError::BadRequest(m)) && m@ == quoted(name@) + " is no longer offered"@),
        (active && components == 0) ==> (r matches Err(AppError::BadRequest(m)) && m@ == quoted(name@)
            + " has no items in it"@),
        (active && components > 0) ==> r is Ok,
{
    if !active {
        return Err(AppError::BadRequest(message(name, " is no longer offered")));
    }
    if components == 0 {
        return Err(AppError::BadRequest(message(name, " has no items in it")));
    }
    Ok(())
}

/// What a component weighs when the package price is split: its catalogue
/// price in cents (nothing when unpriced or unconvertible) times its quantity.
pub open spec fn weight(price: Option<Amount>, quantity: i32) -> int {
    let unit: int = match price {
        Some(p) => match spec_to_cents(p) {
            Some(c) => c as int,
            None => 0,
        },
        None => 0,
    };
    unit * quantity
}

/// The weights of the components, given each one's catalogue price.
pub fn component_weights(prices: &Vec<Option<Amount>>, components: &Vec<BundleItemInput>) -> (r: Vec<i64>)
    requires
        prices@.len() == components@.len(),
        forall|i: int| 0 <= i < prices@.len() ==> (#[trigger] prices@[i] matches Some(p) ==> convertible(p)),
    ensures
        r@.len() == components@.len(),
        forall|i: int| 0 <= i < r@.len() ==> (#[trigger] r@[i]) == weight(prices@[i], components@[i].quantity),
{
    let mut out: Vec<i64> = Vec::new();
    let mut i: usize = 0;
    while i < components.len()
        invariant
            prices@.len() == components@.len(),
            forall|k: int| 0 <= k < prices@.len() ==> (#[trigger] prices@[k] matches Some(p) ==> convertible(p)),
            i <= components@.len(),
            out@.len() == i,
            forall|k: int| 0 <= k < i ==> (#[trigger] out@[k]) == weight(prices@[k], components@[k].quantity),
        decreases components@.len() - i,
    {
        let unit: i64 = match prices[i] {
            Some(p) => match to_cents(p) {
                Some(c) => c,
                None => 0,
            },
            None => 0,
        };
        let q = components[i].quantity;
        proof {
            assert(0 <= unit <= 100_000_000);
            assert(-100_000_000 * 2147483648 <= unit * q <= 100_000_000 * 2147483647) by (nonlinear_arith)
                requires
                    0 <= unit <= 100_000_000,
                    -2147483648 <= q <= 2147483647,
            ;
        }
        out.push(unit * (q as i64));
        i = i + 1;
    }
    out
}

/// The package price in cents, refused when it cannot be charged.
pub fn package_total(name: &str, price: Amount) -> (r: Result<i64, AppError>)
    requires
        convertible(price),
    ensures
        match spec_to_cents(price) {
            Some(c) => r == Ok::<i64, AppError>(c),
            None => r matches Err(AppError::BadRequest(m)) && m@ == quoted(name@) + " has an invalid price"@,
        },
{
    match to_cents(price) {
        Some(c) => Ok(c),
        None => Err(AppError::BadRequest(message(name, " has an invalid price"))),
    }
}

/// One expanded component, ready to become an order.
#[derive(Debug, Clone, Copy, PartialEq, Eq, Structural)]
pub struct BundleLine {
    pub size: BottleSize,
    pub quantity: i32,
    pub scent_id: u128,
    /// Per bottle, not per line: orders store a unit amount.
    pub unit_cents: i64,
}

/// Why component `i` cannot be expanded, if it cannot. A custom blend still
/// has to be built at the bar, so only set perfumes expand automatically.
pub open spec fn component_error(name: Seq<char>, c: BundleItemInput, scent_active: bool) -> Option<(bool, Seq<char>)> {
    if c.item_type == OrderType::CustomMix {
        Some((true, quoted(name) + " contains a custom blend — add that line yourself so the formula can be recorded"@))
    } else if c.scent_id is None {
        Some((true, quoted(name) + " has a set-perfume slot with no scent chosen"@))
    } else if !scent_active {
        Some((true, "scent_id is invalid or inactive"@))
    } else {
        None
    }
}

/// The first failing component among the first `n`.
pub open spec fn first_component_error(name: Seq<char>, cs: Seq<BundleItemInput>, active: Seq<bool>, n: nat) -> Option<(bool, Seq<char>)>
    decreases n,
{
    if n == 0 {
        None
    } else if first_component_error(name, cs, active, (n - 1) as nat) is Some {
        first_component_error(name, cs, active, (n - 1) as nat)
    } else {
        component_error(name, cs[n - 1], active[n - 1])
    }
}

/// What a weight counts for in the split: a negative weight counts as none.
pub open spec fn counted(w: i64) -> int {
    if w > 0 { w as int } else { 0 }
}

/// The counted weight of the first `k` components.
pub open spec fn weight_sum(ws: Seq<i64>, k: nat) -> int
    decreases k,
{
    if k == 0 { 0 } else { weight_sum(ws, (k - 1) as nat) + counted(ws[k - 1]) }
}

/// The weight the split uses for the first `k` components: the counted weights,
/// or one per component when nothing carries any weight (an even split).
pub open spec fn split_weight(ws: Seq<i64>, k: nat) -> int {
    if weight_sum(ws, ws.len()) > 0 { weight_sum(ws, k) } else { k as int }
}

/// How much of `total` the first `k` components carry together: their share of
/// the weight, rounded down.
pub open spec fn split_cut(total: int, ws: Seq<i64>, k: nat) -> int {
    total * split_weight(ws, k) / split_weight(ws, ws.len())
}

/// Component `i`'s share of `total`. Consecutive cuts are differenced, so the
/// rounding never loses or invents a cent: the shares add up to `total`.
pub open spec fn split_share(total: int, ws: Seq<i64>, i: int) -> int {
    split_cut(total, ws, (i + 1) as nat) - split_cut(total, ws, i as nat)
}

/// The sum of a sequence of amounts.
pub open spec fn amounts_sum(s: Seq<i64>) -> int
    decreases s.len(),
{
    if s.len() == 0 { 0 } else { amounts_sum(s.drop_last()) + s.last() }
}

proof fn lemma_weight_sum_bounds(ws: Seq<i64>, j: nat, k: nat)
    requires
        j <= k,
    ensures
        0 <= weight_sum(ws, j) <= weight_sum(ws, k),
        weight_sum(ws, k) <= k * 0x7fff_ffff_ffff_ffff,
    decreases k,
{
    if k > 0 {
        if j < k {
            lemma_weight_sum_bounds(ws, j, (k - 1) as nat);
        } else {
            lemma_weight_sum_bounds(ws, (k - 1) as nat, (k - 1) as nat);
        }
    }
}

/// Splits a package price of `total` cents over components weighted by
/// `weights`, in proportion to each one's weight. A negative weight counts as
/// none; when no component carries any weight the split is even. Each share is
/// the difference of two rounded-down cumulative cuts, so the shares are never
/// negative and always add up to exactly `total`.
pub fn split_bundle_price(total: i64, weights: &Vec<i64>) -> (r: Vec<i64>)
    requires
        total >= 0,
    ensures
        r@.len() == weights@.len(),
        forall|i: int| 0 <= i < r@.len() ==> (#[trigger] r@[i]) == split_share(total as int, weights@, i),
        forall|i: int| 0 <= i < r@.len() ==> 0 <= #[trigger] r@[i] <= total,
        weights@.len() > 0 ==> amounts_sum(r@) == total,
{
    let n = weights.len();
    let mut out: Vec<i64> = Vec::new();
    if n == 0 {
        return out;
    }
    let ghost ws = weights@;
    let mut raw: u128 = 0;
    let mut k: usize = 0;
    while k < n
        invariant
            n == ws.len(),
            ws == weights@,
            k <= n,
            raw as int == weight_sum(ws, k as nat),
        decreases n - k,
    {
        proof {
            lemma_weight_sum_bounds(ws, k as nat, k as nat);
            assert(k * 0x7fff_ffff_ffff_ffff <= 0xffff_ffff_ffff_ffff * 0x7fff_ffff_ffff_ffffint) by (nonlinear_arith)
                requires
                    k <= 0xffff_ffff_ffff_ffff,
            ;
        }
        let w = weights[k];
        if w > 0 {
            raw = raw + (w as u128);
        }
        k = k + 1;
    }
    let even = raw == 0;
    let den: u128 = if even { n as u128 } else { raw };
    let t = total as u128;
    proof {
        lemma_weight_sum_bounds(ws, n as nat, n as nat);
        assert(den as int == split_weight(ws, n as nat));
        assert(den > 0);
        assert(den <= 0xffff_ffff_ffff_ffff * 0x7fff_ffff_ffff_ffffint) by (nonlinear_arith)
            requires
                den <= n * 0x7fff_ffff_ffff_ffff || den == n,
                n <= 0xffff_ffff_ffff_ffff,
        ;
        assert(0 == total * 0 + 0);
        vstd::arithmetic::div_mod::lemma_fundamental_div_mod_converse(total * split_weight(ws, 0), den as int, 0, 0);
    }
    // Invariant: total * split_weight(k) == cut * den + rem, with 0 <= rem < den.
    let mut cut: u128 = 0;
    let mut rem: u128 = 0;
    let mut i: usize = 0;
    while i < n
        invariant
            n == ws.len(),
            ws == weights@,
            n > 0,
            i <= n,
            0 <= total,
            t == total,
            den as int == split_weight(ws, n as nat),
            0 < den <= 0xffff_ffff_ffff_ffff * 0x7fff_ffff_ffff_ffffint,
            even == (weight_sum(ws, n as nat) == 0),
            weight_sum(ws, n as nat) >= 0,
            total * split_weight(ws, i as nat) == cut * den + rem,
            rem < den,
            cut as int == split_cut(total as int, ws, i as nat),
            cut <= total,
            out@.len() == i,
            forall|j: int| 0 <= j < i ==> (#[trigger] out@[j]) == split_share(total as int, ws, j),
            forall|j: int| 0 <= j < i ==> 0 <= #[trigger] out@[j] <= total,
            amounts_sum(out@) == cut,
        decreases n - i,
    {
        let w = weights[i];
        let e: u128 = if even { 1 } else if w > 0 { w as u128 } else { 0 };
        proof {
            lemma_weight_sum_bounds(ws, (i + 1) as nat, n as nat);
            assert(split_weight(ws, (i + 1) as nat) == split_weight(ws, i as nat) + e);
            assert(split_weight(ws, (i + 1) as nat) <= den);
            assert(t * e <= 0x7fff_ffff_ffff_ffff * 0x7fff_ffff_ffff_ffffint) by (nonlinear_arith)
                requires
                    t <= 0x7fff_ffff_ffff_ffff,
                    e <= 0x7fff_ffff_ffff_ffff,
            ;
        }
        let num: u128 = rem + t * e;
        let s: u128 = num / den;
        let next_rem: u128 = num % den;
        proof {
            let x = total * split_weight(ws, (i + 1) as nat);
            assert(x == total * split_weight(ws, i as nat) + total * e) by (nonlinear_arith)
                requires
                    split_weight(ws, (i + 1) as nat) == split_weight(ws, i as nat) + e,
                    x == total * split_weight(ws, (i + 1) as nat),
            ;
            vstd::arithmetic::div_mod::lemma_fundamental_div_mod(num as int, den as int);
            assert(x == (cut + s) * den + next_rem) by (nonlinear_arith)
                requires
                    x == total * split_weight(ws, i as nat) + total * e,
                    total * split_weight(ws, i as nat) == cut * den + rem,
                    num == rem + total * e,
                    num == den * s + next_rem,
            ;
            vstd::arithmetic::div_mod::lemma_fundamental_div_mod_converse(x, den as int, cut + s, next_rem as int);
            assert(x <= total * den) by (nonlinear_arith)
                requires
                    x == total * split_weight(ws, (i + 1) as nat),
                    split_weight(ws, (i + 1) as nat) <= den,
                    total >= 0,
            ;
            assert(cut + s <= total) by (nonlinear_arith)
                requires
                    (cut + s) * den + next_rem <= total * den,
                    next_rem >= 0,
                    den > 0,
            ;
            assert(out@.push(s as i64).drop_last() =~= out@);
        }
        out.push(s as i64);
        cut = cut + s;
        rem = next_rem;
        i = i + 1;
    }
    proof {
        assert(split_cut(total as int, ws, n as nat) == total) by {
            vstd::arithmetic::div_mod::lemma_fundamental_div_mod_converse(total * den, den as int, total as int, 0);
        }
    }
    out
}

/// The lines one component becomes when it carries `share` cents: its bottles
/// at `share` split evenly, the cents that do not divide going one each to the
/// last bottles, which then form a line of their own. A component with no
/// positive quantity keeps its quantity and the whole share as its unit.
pub open spec fn component_lines(c: BundleItemInput, scent: u128, share: int) -> Seq<BundleLine> {
    if c.quantity < 1 {
        seq![BundleLine { size: c.size, quantity: c.quantity, scent_id: scent, unit_cents: share as i64 }]
    } else {
        let q = c.quantity as int;
        let unit = share / q;
        let extra = share % q;
        if extra == 0 {
            seq![BundleLine { size: c.size, quantity: c.quantity, scent_id: scent, unit_cents: unit as i64 }]
        } else {
            seq![
                BundleLine { size: c.size, quantity: (q - extra) as i32, scent_id: scent, unit_cents: unit as i64 },
                BundleLine { size: c.size, quantity: extra as i32, scent_id: scent, unit_cents: (unit + 1) as i64 },
            ]
        }
    }
}

/// The scent a set-perfume component names.
pub open spec fn named_scent(c: BundleItemInput) -> u128 {
    match c.scent_id {
        Some(s) => s,
        None => 0,
    }
}

/// The lines of the first `n` components, in order.
pub open spec fn expanded(cs: Seq<BundleItemInput>, shares: Seq<i64>, n: nat) -> Seq<BundleLine>
    decreases n,
{
    if n == 0 {
        Seq::empty()
    } else {
        expanded(cs, shares, (n - 1) as nat) + component_lines(cs[n - 1], named_scent(cs[n - 1]), shares[n - 1] as int)
    }
}

/// What a list of lines charges: each unit amount times its quantity.
pub open spec fn line_sum(lines: Seq<BundleLine>) -> int
    decreases lines.len(),
{
    if lines.len() == 0 {
        0
    } else {
        line_sum(lines.drop_last()) + lines.last().unit_cents * lines.last().quantity
    }
}

proof fn lemma_line_sum_append(a: Seq<BundleLine>, b: Seq<BundleLine>)
    ensures
        line_sum(a + b) == line_sum(a) + line_sum(b),
    decreases b.len(),
{
    if b.len() > 0 {
        lemma_line_sum_append(a, b.drop_last());
        assert((a + b).drop_last() =~= a + b.drop_last());
    }
}

proof fn lemma_component_lines_sum(c: BundleItemInput, scent: u128, share: int)
    requires
        c.quantity >= 1,
        0 <= share <= i64::MAX,
    ensures
        line_sum(component_lines(c, scent, share)) == share,
{
    let q = c.quantity as int;
    let unit = share / q;
    let extra = share % q;
    vstd::arithmetic::div_mod::lemma_fundamental_div_mod(share, q);
    assert(0 <= unit <= share) by (nonlinear_arith)
        requires
            q >= 1,
            share >= 0,
            unit == share / q,
    ;
    assert(extra > 0 ==> unit + 1 <= share) by (nonlinear_arith)
        requires
            q >= 1,
            unit >= 0,
            share == q * unit + extra,
    ;
    let lines = component_lines(c, scent, share);
    assert(line_sum(Seq::<BundleLine>::empty()) == 0);
    if extra == 0 {
        assert(lines.drop_last() =~= Seq::<BundleLine>::empty());
        assert(lines.last().unit_cents == unit && lines.last().quantity == q);
        assert(line_sum(lines) == unit * q);
        assert(unit * q == q * unit) by (nonlinear_arith);
    } else {
        assert(0 < extra < q);
        assert(lines.drop_last().drop_last() =~= Seq::<BundleLine>::empty());
        assert(lines.drop_last().last().unit_cents == unit && lines.drop_last().last().quantity == q - extra);
        assert(lines.last().unit_cents == unit + 1 && lines.last().quantity == extra);
        assert(line_sum(lines.drop_last()) == unit * (q - extra));
        assert(line_sum(lines) == unit * (q - extra) + (unit + 1) * extra);
        assert(unit * (q - extra) + (unit + 1) * extra == q * unit + extra) by (nonlinear_arith);
    }
}

/// When every component has bottles in it, the lines of the first `n`
/// components charge exactly what those components' shares add up to.
proof fn lemma_expanded_sum(cs: Seq<BundleItemInput>, shares: Seq<i64>, n: nat)
    requires
        n <= cs.len(),
        n <= shares.len(),
        forall|k: int| 0 <= k < n ==> (#[trigger] cs[k]).quantity >= 1,
        forall|k: int| 0 <= k < n ==> 0 <= #[trigger] shares[k],
    ensures
        line_sum(expanded(cs, shares, n)) == amounts_sum(shares.take(n as int)),
    decreases n,
{
    if n > 0 {
        lemma_expanded_sum(cs, shares, (n - 1) as nat);
        lemma_line_sum_append(
            expanded(cs, shares, (n - 1) as nat),
            component_lines(cs[n - 1], named_scent(cs[n - 1]), shares[n - 1] as int),
        );
        lemma_component_lines_sum(cs[n - 1], named_scent(cs[n - 1]), shares[n - 1] as int);
        assert(shares.take(n as int).drop_last() =~= shares.take(n - 1));
    }
}

/// Expands a package into priced lines. The price, `total` cents, is split
/// over the components by `weights` (see [`split_bundle_price`]); each
/// component's share is then spread over its bottles, any cents that do not
/// divide evenly going to a second line. `scent_active[i]` says whether
/// component `i`'s scent exists and is active. The first failing component,
/// in order, is the answer. When every component has bottles in it, the lines
/// charge exactly the package price.
pub fn expand(
    name: &str,
    components: &Vec<BundleItemInput>,
    weights: &Vec<i64>,
    total: i64,
    scent_active: &Vec<bool>,
) -> (r: Result<Vec<BundleLine>, AppError>)
    requires
        weights@.len() == components@.len(),
        scent_active@.len() == components@.len(),
        0 <= total,
    ensures
        match first_component_error(name@, components@, scent_active@, components@.len()) {
            Some((_, m)) => r matches Err(AppError::BadRequest(x)) && x@ == m,
            None => r matches Ok(lines) && lines@ == expanded(
                components@,
                Seq::new(components@.len(), |i: int| split_share(total as int, weights@, i) as i64),
                components@.len(),
            ),
        },
        (components@.len() > 0 && forall|k: int| 0 <= k < components@.len() ==> (#[trigger] components@[k]).quantity >= 1)
            ==> (r matches Ok(lines) ==> line_sum(lines@) == total),
{
    let shares = split_bundle_price(total, weights);
    let ghost sh = shares@;
    proof {
        assert(sh =~= Seq::new(components@.len(), |i: int| split_share(total as int, weights@, i) as i64));
    }
    let mut lines: Vec<BundleLine> = Vec::new();
    let mut i: usize = 0;
    while i < components.len()
        invariant
            sh == shares@,
            shares@.len() == components@.len(),
            scent_active@.len() == components@.len(),
            forall|k: int| 0 <= k < shares@.len() ==> 0 <= #[trigger] shares@[k] <= total,
            i <= components@.len(),
            first_component_error(name@, components@, scent_active@, i as nat) is None,
            lines@ == expanded(components@, sh, i as nat),
        decreases components@.len() - i,
    {
        let c = components[i];
        let fail: Option<String> = if c.item_type == OrderType::CustomMix {
            Some(message(name, " contains a custom blend — add that line yourself so the formula can be recorded"))
        } else if c.scent_id.is_none() {
            Some(message(name, " has a set-perfume slot with no scent chosen"))
        } else if !scent_active[i] {
            Some(String::from_str("scent_id is invalid or inactive"))
        } else {
            None
        };
        match fail {
            Some(m) => {
                proof {
                    lemma_first_component_error_stays(name@, components@, scent_active@, (i + 1) as nat, components@.len());
                }
                return Err(AppError::BadRequest(m));
            },
            None => {},
        }
        let scent = match c.scent_id {
            Some(s) => s,
            None => 0,
        };
        let share = shares[i];
        let ghost before = lines@;
        if c.quantity < 1 {
            lines.push(BundleLine { size: c.size, quantity: c.quantity, scent_id: scent, unit_cents: share });
        } else {
            let q = c.quantity as u64;
            let unit = (share as u64) / q;
            let extra = (share as u64) % q;
            proof {
                assert(unit <= share as u64 && (extra > 0 ==> unit + 1 <= share as u64)) by (nonlinear_arith)
                    requires
                        q >= 1,
                        unit == (share as u64) / q,
                        extra == (share as u64) % q,
                ;
            }
            if extra == 0 {
                lines.push(BundleLine { size: c.size, quantity: c.quantity, scent_id: scent, unit_cents: unit as i64 });
            } else {
                lines.push(BundleLine {
                    size: c.size,
                    quantity: (q - extra) as i32,
                    scent_id: scent,
                    unit_cents: unit as i64,
                });
                lines.push(BundleLine { size: c.size, quantity: extra as i32, scent_id: scent, unit_cents: (unit + 1) as i64 });
            }
        }
        proof {
            assert(lines@ =~= before + component_lines(c, named_scent(c), share as int));
        }
        i = i + 1;
    }
    proof {
        if components@.len() > 0 && forall|k: int| 0 <= k < components@.len() ==> (#[trigger] components@[k]).quantity >= 1 {
            lemma_expanded_sum(components@, sh, components@.len());
            assert(sh.take(sh.len() as int) =~= sh);
        }
    }
    Ok(lines)
}

proof fn lemma_first_component_error_stays(name: Seq<char>, cs: Seq<BundleItemInput>, active: Seq<bool>, n: nat, m: nat)
    requires
        n <= m,
        first_component_error(name, cs, active, n) is Some,
    ensures
        first_component_error(name, cs, active, m) == first_component_error(name, cs, active, n),
    decreases m - n,
{
    if n < m {
        lemma_first_component_error_stays(name, cs, active, n, (m - 1) as nat);
    }
}

} // verus!
