//! Per-status counts for the observability endpoints (the sync outbox and the
//! email deliveries): every expected status is listed, at zero when the
//! database reported none, and whatever the database reported wins.

use vstd::prelude::*;
use crate::text::str_eq;

verus! {

/// The counts a list of `(status, count)` pairs amounts to: a later pair for
/// the same status replaces an earlier one.
pub open spec fn counts_of(pairs: Seq<(String, i64)>) -> Map<Seq<char>, i64>
    decreases pairs.len(),
{
    if pairs.len() == 0 {
        Map::empty()
    } else {
        counts_of(pairs.drop_last()).insert(pairs.last().0@, pairs.last().1)
    }
}

/// No status occurs twice.
pub open spec fn distinct_keys(pairs: Seq<(String, i64)>) -> bool {
    forall|i: int, j: int| 0 <= i < pairs.len() && 0 <= j < pairs.len() && i != j ==> (#[trigger] pairs[i]).0@
        != (#[trigger] pairs[j]).0@
}

/// `k` is among the first `n` expected statuses.
pub open spec fn listed(keys: Seq<&str>, n: int, k: Seq<char>) -> bool {
    exists|i: int| 0 <= i < n && keys[i]@ == k
}

/// The expected statuses at zero.
pub open spec fn zeros(keys: Seq<&str>) -> Map<Seq<char>, i64> {
    Map::new(|k: Seq<char>| listed(keys, keys.len() as int, k), |k: Seq<char>| 0i64)
}

/// Every expected status at zero, overwritten by what the rows report, in
/// order.
pub open spec fn tally(keys: Seq<&str>, rows: Seq<(String, i64)>) -> Map<Seq<char>, i64> {
    zeros(keys).union_prefer_right(counts_of(rows))
}

proof fn lemma_counts_keys(pairs: Seq<(String, i64)>)
    ensures
        forall|k: Seq<char>| counts_of(pairs).contains_key(k) <==> exists|i: int| 0 <= i < pairs.len() && (#[trigger] pairs[i]).0@ == k,
    decreases pairs.len(),
{
    if pairs.len() > 0 {
        let d = pairs.drop_last();
        lemma_counts_keys(d);
        assert forall|k: Seq<char>| counts_of(pairs).contains_key(k) <==> exists|i: int| 0 <= i < pairs.len() && (#[trigger] pairs[i]).0@ == k by {
            if counts_of(pairs).contains_key(k) && k != pairs.last().0@ {
                assert(counts_of(d).contains_key(k));
                let i = choose|i: int| 0 <= i < d.len() && (#[trigger] d[i]).0@ == k;
                assert(pairs[i] == d[i]);
            }
            if k == pairs.last().0@ {
                assert(pairs[pairs.len() - 1].0@ == k);
            }
            if exists|i: int| 0 <= i < pairs.len() && (#[trigger] pairs[i]).0@ == k {
                let i = choose|i: int| 0 <= i < pairs.len() && (#[trigger] pairs[i]).0@ == k;
                if i < pairs.len() - 1 {
                    assert(d[i] == pairs[i]);
                    assert(counts_of(d).contains_key(k));
                }
            }
        }
    }
}

/// Replacing the count of a listed status is inserting it.
proof fn lemma_counts_update(pairs: Seq<(String, i64)>, j: int, p: (String, i64))
    requires
        distinct_keys(pairs),
        0 <= j < pairs.len(),
        pairs[j].0@ == p.0@,
    ensures
        counts_of(pairs.update(j, p)) =~= counts_of(pairs).insert(p.0@, p.1),
        distinct_keys(pairs.update(j, p)),
    decreases pairs.len(),
{
    let u = pairs.update(j, p);
    assert(distinct_keys(u)) by {
        assert forall|a: int, b: int| 0 <= a < u.len() && 0 <= b < u.len() && a != b implies (#[trigger] u[a]).0@
            != (#[trigger] u[b]).0@ by {
            assert(pairs[a].0@ != pairs[b].0@);
        }
    }
    let d = pairs.drop_last();
    if j == pairs.len() - 1 {
        assert(u.drop_last() =~= d);
    } else {
        assert(distinct_keys(d)) by {
            assert forall|a: int, b: int| 0 <= a < d.len() && 0 <= b < d.len() && a != b implies (#[trigger] d[a]).0@
                != (#[trigger] d[b]).0@ by {
                assert(d[a] == pairs[a] && d[b] == pairs[b]);
            }
        }
        lemma_counts_update(d, j, p);
        assert(u.drop_last() =~= d.update(j, p));
        assert(pairs.last().0@ != p.0@) by {
            assert(pairs[pairs.len() - 1].0@ != pairs[j].0@);
        }
        assert(u.last() == pairs.last());
    }
}

/// Where `key` sits among the pairs, if it does.
fn position(pairs: &Vec<(String, i64)>, key: &str) -> (r: Option<usize>)
    ensures
        match r {
            Some(j) => j < pairs@.len() && pairs@[j as int].0@ == key@,
            None => forall|i: int| 0 <= i < pairs@.len() ==> (#[trigger] pairs@[i]).0@ != key@,
        },
{
    let mut i: usize = 0;
    while i < pairs.len()
        invariant
            i <= pairs@.len(),
            forall|k: int| 0 <= k < i ==> (#[trigger] pairs@[k]).0@ != key@,
        decreases pairs@.len() - i,
    {
        if str_eq(pairs[i].0.as_str(), key) {
            return Some(i);
        }
        i = i + 1;
    }
    None
}

/// Sets the count of `key`, adding it when it is not listed yet.
fn upsert(pairs: &mut Vec<(String, i64)>, key: &str, count: i64)
    requires
        distinct_keys(old(pairs)@),
    ensures
        distinct_keys(final(pairs)@),
        counts_of(final(pairs)@) =~= counts_of(old(pairs)@).insert(key@, count),
{
    match position(pairs, key) {
        Some(j) => {
            let ghost before = pairs@;
            let p = (String::from_str(key), count);
            proof {
                lemma_counts_update(before, j as int, p);
            }
            pairs.set(j, p);
            proof {
                assert(pairs@ =~= before.update(j as int, p));
            }
        },
        None => {
            let ghost before = pairs@;
            pairs.push((String::from_str(key), count));
            proof {
                assert(pairs@.drop_last() =~= before);
                assert forall|a: int, b: int| 0 <= a < pairs@.len() && 0 <= b < pairs@.len() && a != b implies (#[trigger] pairs@[a]).0@
                    != (#[trigger] pairs@[b]).0@ by {
                    if a < before.len() && b < before.len() {
                        assert(pairs@[a] == before[a] && pairs@[b] == before[b]);
                    } else if a < before.len() {
                        assert(pairs@[a] == before[a]);
                    } else {
                        assert(pairs@[b] == before[b]);
                    }
                }
            }
        },
    }
}

/// The counts to report: each expected status at zero, then each database row
/// in order. Every status appears once.
pub fn status_counts(keys: &Vec<&str>, rows: &Vec<(String, i64)>) -> (r: Vec<(String, i64)>)
    ensures
        distinct_keys(r@),
        counts_of(r@) =~= tally(keys@, rows@),
{
    let mut out: Vec<(String, i64)> = Vec::new();
    let mut i: usize = 0;
    while i < keys.len()
        invariant
            i <= keys@.len(),
            distinct_keys(out@),
            counts_of(out@) =~= Map::new(|k: Seq<char>| listed(keys@, i as int, k), |k: Seq<char>| 0i64),
        decreases keys@.len() - i,
    {
        upsert(&mut out, keys[i], 0);
        proof {
            assert forall|k: Seq<char>| #[trigger] listed(keys@, i + 1, k) <==> (listed(keys@, i as int, k) || k
                == keys@[i as int]@) by {
                if listed(keys@, i + 1, k) {
                    let m = choose|m: int| 0 <= m < i + 1 && keys@[m]@ == k;
                    if m < i {
                        assert(listed(keys@, i as int, k));
                    }
                }
                if listed(keys@, i as int, k) {
                    let m = choose|m: int| 0 <= m < i && keys@[m]@ == k;
                    assert(0 <= m < i + 1 && keys@[m]@ == k);
                }
                if k == keys@[i as int]@ {
                    assert(0 <= i < i + 1 && keys@[i as int]@ == k);
                }
            }
        }
        i = i + 1;
    }
    proof {
        assert(counts_of(out@) =~= zeros(keys@));
    }
    let ghost base = out@;
    let mut j: usize = 0;
    while j < rows.len()
        invariant
            j <= rows@.len(),
            distinct_keys(out@),
            counts_of(base) =~= zeros(keys@),
            counts_of(out@) =~= zeros(keys@).union_prefer_right(counts_of(rows@.take(j as int))),
        decreases rows@.len() - j,
    {
        upsert(&mut out, rows[j].0.as_str(), rows[j].1);
        proof {
            assert(rows@.take(j + 1).drop_last() =~= rows@.take(j as int));
            assert(rows@.take(j + 1).last() == rows@[j as int]);
        }
        j = j + 1;
    }
    proof {
        assert(rows@.take(rows@.len() as int) =~= rows@);
    }
    out
}

/// Every expected status is reported, at zero when the database reported
/// nothing for it, and a status the database reported carries the count of
/// its last row.
pub proof fn lemma_every_status_listed(keys: Seq<&str>, rows: Seq<(String, i64)>, k: Seq<char>)
    ensures
        listed(keys, keys.len() as int, k) ==> tally(keys, rows).contains_key(k),
        (listed(keys, keys.len() as int, k) && forall|j: int| 0 <= j < rows.len() ==> (#[trigger] rows[j]).0@ != k)
            ==> tally(keys, rows)[k] == 0,
        (exists|j: int| 0 <= j < rows.len() && (#[trigger] rows[j]).0@ == k) ==> tally(keys, rows).contains_key(k)
            && tally(keys, rows)[k] == counts_of(rows)[k],
{
    lemma_counts_keys(rows);
}

} // verus!
