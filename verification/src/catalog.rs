//! The ingredient and scent catalogues and the mixes built from them: the rule
//! every formula follows (shared by mixes, scents and intake so it cannot
//! drift), and the bucketing that reattaches rows to their parent in order.

use vstd::prelude::*;
use crate::error::AppError;
use crate::money::Amount;
use crate::text::{is_blank, spec_trim, trim};

verus! {

/// A custom mix holds at most this many ingredients.
pub const MAX_MIX_INGREDIENTS: usize = 8;

/// An ingredient's perfumery type.
#[derive(Debug, Clone, Copy, PartialEq, Eq, Structural)]
pub enum IngredientType {
    Base,
    TopNote,
    HeartNote,
}

#[derive(Debug)]
pub struct CreateIngredientRequest {
    pub name: String,
    pub ingredient_type: IngredientType,
}

#[derive(Debug)]
pub struct UpdateIngredientRequest {
    pub name: Option<String>,
    pub active: Option<bool>,
    pub ingredient_type: Option<IngredientType>,
}

/// One ingredient of a formula and how much of it goes in (ml, for the 3.4oz
/// base).
#[derive(Debug, Clone, Copy)]
pub struct MixItemInput {
    pub ingredient_id: u128,
    pub amount_ml: Amount,
}

/// A customer's saved blend.
#[derive(Debug)]
pub struct Mix {
    pub id: u128,
    pub customer_id: u128,
    pub name: String,
}

#[derive(Debug)]
pub struct MixItem {
    pub mix_id: u128,
    pub ingredient_id: u128,
    pub amount_ml: Amount,
}

/// A mix with its items attached.
#[derive(Debug)]
pub struct MixDetail {
    pub mix: Mix,
    pub items: Vec<MixItem>,
}

#[derive(Debug)]
pub struct UpdateMixRequest {
    pub name: Option<String>,
    pub items: Option<Vec<MixItemInput>>,
}

/// A house scent, with its price for each bottle size (absent: not sold in it).
#[derive(Debug)]
pub struct Scent {
    pub id: u128,
    pub name: String,
    pub active: bool,
    pub price_oz3_4: Option<Amount>,
    pub price_oz1_7: Option<Amount>,
    pub price_roller: Option<Amount>,
    pub price_spray: Option<Amount>,
}

#[derive(Debug)]
pub struct ScentItem {
    pub scent_id: u128,
    pub ingredient_id: u128,
    pub amount_ml: Amount,
}

/// A scent with its formula attached.
#[derive(Debug)]
pub struct ScentDetail {
    pub scent: Scent,
    pub items: Vec<ScentItem>,
}

#[derive(Debug)]
pub struct CreateScentRequest {
    pub name: String,
    pub items: Option<Vec<MixItemInput>>,
}

#[derive(Debug)]
pub struct UpdateScentRequest {
    pub name: Option<String>,
    pub active: Option<bool>,
    pub items: Option<Vec<MixItemInput>>,
}

/// No id occurs twice.
pub open spec fn distinct(ids: Seq<u128>) -> bool {
    forall|i: int, j: int| 0 <= i < j < ids.len() ==> ids[i] != ids[j]
}

/// Why a list of ingredient ids cannot be a formula, if it cannot: empty, over
/// the cap, or repeating an ingredient.
pub open spec fn ingredient_ids_error(ids: Seq<u128>) -> Option<Seq<char>> {
    if ids.len() == 0 {
        Some("a mix needs at least 1 ingredient"@)
    } else if ids.len() > MAX_MIX_INGREDIENTS {
        Some("a mix may have at most 8 ingredients"@)
    } else if !distinct(ids) {
        Some("a mix cannot repeat the same ingredient twice"@)
    } else {
        None
    }
}

fn has_duplicate(ids: &Vec<u128>) -> (r: bool)
    ensures
        r == !distinct(ids@),
{
    let n = ids.len();
    let mut i: usize = 0;
    while i < n
        invariant
            n == ids@.len(),
            i <= n,
            forall|a: int, b: int| 0 <= a < b < ids@.len() && a < i ==> ids@[a] != ids@[b],
        decreases n - i,
    {
        let mut j: usize = i + 1;
        while j < n
            invariant
                n == ids@.len(),
                i < n,
                i + 1 <= j <= n,
                forall|b: int| i < b < j ==> ids@[i as int] != ids@[b],
            decreases n - j,
        {
            if ids[i] == ids[j] {
                return true;
            }
            j = j + 1;
        }
        i = i + 1;
    }
    false
}

/// The shape every formula's ingredient list must have, checked before the
/// database is asked whether the ingredients are active.
pub fn check_ingredient_ids(ids: &Vec<u128>) -> (r: Result<(), AppError>)
    ensures
        match ingredient_ids_error(ids@) {
            Some(m) => r matches Err(AppError::BadRequest(x)) && x@ == m,
            None => r is Ok,
        },
{
    if ids.len() == 0 {
        return Err(AppError::BadRequest(String::from_str("a mix needs at least 1 ingredient")));
    }
    if ids.len() > MAX_MIX_INGREDIENTS {
        return Err(AppError::BadRequest(String::from_str("a mix may have at most 8 ingredients")));
    }
    if has_duplicate(ids) {
        return Err(AppError::BadRequest(String::from_str("a mix cannot repeat the same ingredient twice")));
    }
    Ok(())
}

/// Every listed ingredient must be active: the database's count of active ones
/// among them has to equal the length of the list.
pub fn check_active_count(active: i64, listed: usize) -> (r: Result<(), AppError>)
    ensures
        active == listed ==> r is Ok,
        active != listed ==> (r matches Err(AppError::BadRequest(m)) && m@
            == "one or more ingredients are invalid or inactive"@),
{
    if active >= 0 && (active as u64) == (listed as u64) {
        Ok(())
    } else {
        Err(AppError::BadRequest(String::from_str("one or more ingredients are invalid or inactive")))
    }
}

/// Why a formula's ingredient list is refused, if it is, given how many of
/// the listed ingredients the database reports active.
pub open spec fn active_ingredients_error(ids: Seq<u128>, active: i64) -> Option<Seq<char>> {
    if ingredient_ids_error(ids) is Some {
        ingredient_ids_error(ids)
    } else if active != ids.len() {
        Some("one or more ingredients are invalid or inactive"@)
    } else {
        None
    }
}

/// The one rule for a formula's ingredients, shared by mixes, scents and
/// intake so it cannot drift: a non-empty, duplicate-free list of at most
/// eight, every one of them active.
pub fn assert_active_ingredients(ids: &Vec<u128>, active: i64) -> (r: Result<(), AppError>)
    ensures
        match active_ingredients_error(ids@, active) {
            Some(m) => r matches Err(AppError::BadRequest(x)) && x@ == m,
            None => r is Ok,
        },
{
    match check_ingredient_ids(ids) {
        Ok(()) => {},
        Err(e) => return Err(e),
    }
    check_active_count(active, ids.len())
}

/// The ingredient ids of a formula, in order.
pub fn ingredient_ids(items: &Vec<MixItemInput>) -> (r: Vec<u128>)
    ensures
        r@.len() == items@.len(),
        forall|i: int| 0 <= i < items@.len() ==> r@[i] == (#[trigger] items@[i]).ingredient_id,
{
    let mut out: Vec<u128> = Vec::new();
    let mut i: usize = 0;
    while i < items.len()
        invariant
            i <= items@.len(),
            out@.len() == i,
            forall|k: int| 0 <= k < i ==> out@[k] == (#[trigger] items@[k]).ingredient_id,
        decreases items@.len() - i,
    {
        out.push(items[i].ingredient_id);
        i = i + 1;
    }
    out
}

/// Strictly above zero.
pub open spec fn positive(a: Amount) -> bool {
    !a.negative && a.mantissa > 0
}

/// Every amount is positive.
pub open spec fn amounts_positive(items: Seq<MixItemInput>) -> bool {
    forall|i: int| 0 <= i < items.len() ==> positive(#[trigger] items[i].amount_ml)
}

pub fn check_amounts(items: &Vec<MixItemInput>) -> (r: Result<(), AppError>)
    ensures
        amounts_positive(items@) ==> r is Ok,
        !amounts_positive(items@) ==> (r matches Err(AppError::BadRequest(m)) && m@
            == "amount_ml must be positive"@),
{
    let mut i: usize = 0;
    while i < items.len()
        invariant
            i <= items@.len(),
            forall|k: int| 0 <= k < i ==> positive(#[trigger] items@[k].amount_ml),
        decreases items@.len() - i,
    {
        let a = items[i].amount_ml;
        if a.negative || a.mantissa == 0 {
            return Err(AppError::BadRequest(String::from_str("amount_ml must be positive")));
        }
        i = i + 1;
    }
    Ok(())
}

/// Why a blend's items are refused, if they are: the ingredient rule, then
/// every amount positive.
pub open spec fn mix_items_error(items: Seq<MixItemInput>, active: i64) -> Option<Seq<char>> {
    let ids = items.map_values(|i: MixItemInput| i.ingredient_id);
    if active_ingredients_error(ids, active) is Some {
        active_ingredients_error(ids, active)
    } else if !amounts_positive(items) {
        Some("amount_ml must be positive"@)
    } else {
        None
    }
}

/// The checks a blend's new items pass; `active` is how many of the listed
/// ingredients the database reports active.
pub fn check_mix_items(items: &Vec<MixItemInput>, active: i64) -> (r: Result<(), AppError>)
    ensures
        match mix_items_error(items@, active) {
            Some(m) => r matches Err(AppError::BadRequest(x)) && x@ == m,
            None => r is Ok,
        },
{
    let ids = ingredient_ids(items);
    proof {
        assert(ids@ =~= items@.map_values(|i: MixItemInput| i.ingredient_id));
    }
    match assert_active_ingredients(&ids, active) {
        Ok(()) => {},
        Err(e) => return Err(e),
    }
    check_amounts(items)
}

/// A scent's formula: empty is allowed (the recipe is not defined yet);
/// otherwise it follows the same rule blends do.
pub fn validate_formula(items: &Vec<MixItemInput>, active: i64) -> (r: Result<(), AppError>)
    ensures
        items@.len() == 0 ==> r is Ok,
        items@.len() > 0 ==> match mix_items_error(items@, active) {
            Some(m) => r matches Err(AppError::BadRequest(x)) && x@ == m,
            None => r is Ok,
        },
{
    if items.len() == 0 {
        return Ok(());
    }
    check_mix_items(items, active)
}

/// A catalogue entry needs a name; it is stored trimmed.
pub fn require_name(name: &str) -> (r: Result<String, AppError>)
    ensures
        is_blank(name@) ==> (r matches Err(AppError::BadRequest(m)) && m@ == "name is required"@),
        !is_blank(name@) ==> (r matches Ok(n) && n@ == spec_trim(name@)),
{
    let n = trim(name);
    if n.unicode_len() == 0 {
        return Err(AppError::BadRequest(String::from_str("name is required")));
    }
    Ok(String::from_str(n))
}

/// A set perfume must name a scent that exists and is active.
pub fn assert_active_scent(exists_and_active: bool) -> (r: Result<(), AppError>)
    ensures
        exists_and_active ==> r is Ok,
        !exists_and_active ==> (r matches Err(AppError::BadRequest(m)) && m@
            == "scent_id is invalid or inactive"@),
{
    if exists_and_active {
        Ok(())
    } else {
        Err(AppError::BadRequest(String::from_str("scent_id is invalid or inactive")))
    }
}

/// The positions, in order, among the first `n` rows whose parent is `p`.
pub open spec fn indices_of(parents: Seq<u128>, p: u128, n: nat) -> Seq<usize>
    decreases n,
{
    if n == 0 {
        Seq::empty()
    } else {
        let rest = indices_of(parents, p, (n - 1) as nat);
        if parents[n - 1] == p { rest.push((n - 1) as usize) } else { rest }
    }
}

/// `i` is the first place its id occurs.
pub open spec fn first_occurrence(ids: Seq<u128>, i: int) -> bool {
    forall|k: int| 0 <= k < i ==> ids[k] != ids[i]
}

/// The rows each parent gets: all rows naming it, in their order, for the
/// first occurrence of a parent id; nothing for a repeat (its rows were already
/// handed out).
pub open spec fn bucket(parents: Seq<u128>, rows: Seq<u128>, i: int) -> Seq<usize> {
    if first_occurrence(parents, i) {
        indices_of(rows, parents[i], rows.len())
    } else {
        Seq::empty()
    }
}

fn rows_of(rows: &Vec<u128>, p: u128) -> (r: Vec<usize>)
    ensures
        r@ == indices_of(rows@, p, rows@.len()),
{
    let mut out: Vec<usize> = Vec::new();
    let mut j: usize = 0;
    while j < rows.len()
        invariant
            j <= rows@.len(),
            out@ == indices_of(rows@, p, j as nat),
        decreases rows@.len() - j,
    {
        if rows[j] == p {
            out.push(j);
        }
        j = j + 1;
    }
    out
}

/// Buckets child rows by parent, keeping the parents' order and each bucket
/// in the rows' order: entry `i` lists the positions of the rows whose parent
/// is `parents[i]`.
pub fn bucket_by_parent(parents: &Vec<u128>, rows: &Vec<u128>) -> (r: Vec<Vec<usize>>)
    ensures
        r@.len() == parents@.len(),
        forall|i: int| 0 <= i < parents@.len() ==> (#[trigger] r@[i])@ == bucket(parents@, rows@, i),
{
    let mut out: Vec<Vec<usize>> = Vec::new();
    let mut i: usize = 0;
    while i < parents.len()
        invariant
            i <= parents@.len(),
            out@.len() == i,
            forall|k: int| 0 <= k < i ==> (#[trigger] out@[k])@ == bucket(parents@, rows@, k),
        decreases parents@.len() - i,
    {
        let p = parents[i];
        let mut seen = false;
        let mut k: usize = 0;
        while k < i
            invariant
                i < parents@.len(),
                k <= i,
                p == parents@[i as int],
                seen <==> exists|m: int| 0 <= m < k && parents@[m] == p,
            decreases i - k,
        {
            if parents[k] == p {
                seen = true;
            }
            k = k + 1;
        }
        if seen {
            out.push(Vec::new());
            proof {
                assert(!first_occurrence(parents@, i as int));
                assert(out@[i as int]@ =~= bucket(parents@, rows@, i as int));
            }
        } else {
            let b = rows_of(rows, p);
            out.push(b);
        }
        i = i + 1;
    }
    out
}

pub proof fn lemma_indices_of(rows: Seq<u128>, p: u128, n: nat, j: usize)
    requires
        n <= rows.len(),
        rows.len() <= usize::MAX,
    ensures
        indices_of(rows, p, n).contains(j) <==> (j < n && rows[j as int] == p),
        forall|a: int| 0 <= a < indices_of(rows, p, n).len() ==> #[trigger] indices_of(rows, p, n)[a] < n,
    decreases n,
{
    if n > 0 {
        lemma_indices_of(rows, p, (n - 1) as nat, j);
        let rest = indices_of(rows, p, (n - 1) as nat);
        if rows[n - 1] == p {
            let full = rest.push((n - 1) as usize);
            assert(full[rest.len() as int] == (n - 1) as usize);
            if full.contains(j) {
                let a = choose|a: int| 0 <= a < full.len() && full[a] == j;
                if a < rest.len() {
                    assert(rest[a] == j);
                    assert(rest.contains(j));
                }
            }
            if rest.contains(j) {
                let a = choose|a: int| 0 <= a < rest.len() && rest[a] == j;
                assert(full[a] == j);
            }
            if j == n - 1 {
                assert(full.contains(j));
            }
            assert forall|a: int| 0 <= a < full.len() implies #[trigger] full[a] < n by {
                if a < rest.len() {
                    assert(full[a] == rest[a]);
                }
            }
        }
    }
}

/// Bucketing neither loses nor duplicates a row: a row whose parent is listed
/// lands in the bucket of that parent's first occurrence, and in no other.
pub proof fn lemma_each_row_in_one_bucket(parents: Seq<u128>, rows: Seq<u128>, j: usize, i: int, i2: int)
    requires
        0 <= i < parents.len(),
        0 <= i2 < parents.len(),
        j < rows.len(),
        rows.len() <= usize::MAX,
        first_occurrence(parents, i),
        rows[j as int] == parents[i],
    ensures
        bucket(parents, rows, i).contains(j),
        bucket(parents, rows, i2).contains(j) ==> i2 == i,
{
    lemma_indices_of(rows, parents[i], rows.len(), j);
    lemma_indices_of(rows, parents[i2], rows.len(), j);
    if bucket(parents, rows, i2).contains(j) {
        assert(first_occurrence(parents, i2));
        assert(parents[i2] == parents[i]);
        if i2 < i {
            assert(parents[i2] != parents[i]);
        } else if i < i2 {
            assert(parents[i] != parents[i2]);
        }
    }
}

} // verus!
