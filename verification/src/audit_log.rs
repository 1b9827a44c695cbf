//! Reading the audit log: the filters a listing accepts and the page window it
//! is held to. The log itself is read-only by construction.

use vstd::prelude::*;
use crate::text::{blank, is_blank};

verus! {

/// The maximum page size: this table only grows, and an unbounded query
/// against it gets slower every month.
pub const MAX_PAGE: i64 = 500;

#[derive(Debug)]
pub struct ListQuery {
    /// Filter to one person.
    pub actor: Option<String>,
    /// `admin`, `worker`, or absent for everyone.
    pub role: Option<String>,
    /// Substring match on the path.
    pub path: Option<String>,
    /// Hide the successes.
    pub failures_only: bool,
    pub limit: i64,
    pub offset: i64,
}

/// The page size a listing gets when none is asked for.
pub fn default_limit() -> (r: i64)
    ensures
        r == 100,
{
    100
}

/// The window a listing actually reads.
#[derive(Debug, Clone, Copy, PartialEq, Eq, Structural)]
pub struct Page {
    pub limit: i64,
    pub offset: i64,
}

/// The limit is held to `1..=500` whatever was asked for, and a negative
/// offset reads from the start.
pub fn page(q: &ListQuery) -> (r: Page)
    ensures
        r.limit == if q.limit < 1 { 1 } else if q.limit > MAX_PAGE { MAX_PAGE } else { q.limit },
        r.offset == if q.offset < 0 { 0 } else { q.offset },
        1 <= r.limit <= MAX_PAGE,
        r.offset >= 0,
{
    let limit = if q.limit < 1 { 1 } else if q.limit > MAX_PAGE { MAX_PAGE } else { q.limit };
    let offset = if q.offset < 0 { 0 } else { q.offset };
    Page { limit, offset }
}

/// A text filter applies only when it holds something besides whitespace.
pub open spec fn spec_text_filter(v: Option<String>) -> Option<Seq<char>> {
    match v {
        Some(s) => if is_blank(s@) { None } else { Some(s@) },
        None => None,
    }
}

pub fn text_filter(v: &Option<String>) -> (r: Option<String>)
    ensures
        match r {
            Some(s) => spec_text_filter(*v) == Some(s@),
            None => spec_text_filter(*v) is None,
        },
{
    match v {
        Some(s) => if blank(s.as_str()) { None } else { Some(s.clone()) },
        None => None,
    }
}

} // verus!
