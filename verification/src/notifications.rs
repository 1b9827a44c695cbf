//! Chat notification targets (Discord / Slack / Teams). A webhook URL is a
//! bearer credential, so it is write-only from the browser's point of view:
//! answers carry a redacted hint instead.

use vstd::prelude::*;
use crate::error::AppError;
use crate::text::{before_first, push_str, spec_trim, split_first};

verus! {

#[derive(Debug)]
pub struct CreateTarget {
    pub label: String,
    pub platform: String,
    pub webhook_url: String,
    pub notify_online_sale: bool,
    pub notify_event_booked: bool,
    pub include_customer_email: bool,
}

#[derive(Debug)]
pub struct UpdateTarget {
    pub label: Option<String>,
    pub active: Option<bool>,
    pub notify_online_sale: Option<bool>,
    pub notify_event_booked: Option<bool>,
    pub include_customer_email: Option<bool>,
    /// Replaces the stored URL when present; omitted leaves it untouched.
    pub webhook_url: Option<String>,
}

/// The default for the event switches of a new target: on.
pub fn yes() -> (r: bool)
    ensures
        r,
{
    true
}

/// A target needs a label; it is stored trimmed.
pub fn target_label(label: &str) -> (r: Result<String, AppError>)
    ensures
        spec_trim(label@).len() == 0 ==> (r matches Err(AppError::BadRequest(m)) && m@ == "a label is required"@),
        spec_trim(label@).len() > 0 ==> (r matches Ok(l) && l@ == spec_trim(label@)),
{
    crate::backup_admin::check_label(label)
}

/// A `//` starts at `j`.
pub open spec fn slash_pair(s: Seq<char>, j: int) -> bool {
    s[j] == '/' && s[j + 1] == '/'
}

/// `i` is where the first `//` starts.
pub open spec fn double_slash_at(s: Seq<char>, i: int) -> bool {
    &&& 0 <= i && i + 1 < s.len()
    &&& slash_pair(s, i)
    &&& forall|j: int| 0 <= j < i ==> !#[trigger] slash_pair(s, j)
}

/// The text after the first `//`, or nothing when there is none.
pub open spec fn after_scheme(s: Seq<char>) -> Seq<char> {
    if exists|i: int| double_slash_at(s, i) {
        s.skip((choose|i: int| double_slash_at(s, i)) + 2)
    } else {
        Seq::empty()
    }
}

/// The last four characters, or all of a shorter text.
pub open spec fn tail4(s: Seq<char>) -> Seq<char> {
    if s.len() >= 4 { s.skip(s.len() - 4) } else { s }
}

/// Enough to tell two webhooks apart, not enough to use one: the host, an
/// ellipsis, and the last four characters. Never the secret path segment.
pub open spec fn spec_url_hint(url: Seq<char>) -> Seq<char> {
    before_first(after_scheme(url), '/') + "/…"@ + tail4(url)
}

fn find_double_slash(s: &str) -> (r: Option<usize>)
    ensures
        match r {
            Some(i) => double_slash_at(s@, i as int),
            None => !exists|i: int| double_slash_at(s@, i),
        },
{
    let n = s.unicode_len();
    let mut i: usize = 0;
    while i < n && i + 1 < n
        invariant
            n == s@.len(),
            i <= n,
            forall|j: int| 0 <= j < i && j + 1 < n ==> !#[trigger] slash_pair(s@, j),
        decreases n - i,
    {
        if s.get_char(i) == '/' && s.get_char(i + 1) == '/' {
            return Some(i);
        }
        i = i + 1;
    }
    proof {
        assert forall|k: int| !double_slash_at(s@, k) by {
            if double_slash_at(s@, k) {
                assert(k + 1 < n);
                assert(!slash_pair(s@, k));
            }
        }
    }
    None
}

pub fn url_hint(url: &str) -> (r: String)
    ensures
        r@ == spec_url_hint(url@),
{
    let n = url.unicode_len();
    let rest: String = match find_double_slash(url) {
        Some(i) => {
            proof {
                let k = choose|k: int| double_slash_at(url@, k);
                if k < i {
                    assert(!slash_pair(url@, k));
                } else if i < k {
                    assert(!slash_pair(url@, i as int));
                }
            }
            let t = String::from_str(url.substring_char(i + 2, n));
            proof {
                assert(t@ =~= after_scheme(url@));
            }
            t
        },
        None => String::new(),
    };
    let (host, _) = split_first(rest.as_str(), '/');
    let mut s = String::new();
    push_str(&mut s, host.as_str());
    push_str(&mut s, "/…");
    let tail: &str = if n >= 4 { url.substring_char(n - 4, n) } else { url };
    push_str(&mut s, tail);
    proof {
        assert(tail@ =~= tail4(url@));
        assert(s@ =~= spec_url_hint(url@));
    }
    s
}

/// What the test button reports.
pub fn test_outcome(sent: Result<(), String>) -> (r: (bool, String))
    ensures
        sent is Ok ==> r.0 && r.1@ == "Test message sent."@,
        sent matches Err(e) ==> !r.0 && r.1@ == e@,
{
    match sent {
        Ok(()) => (true, String::from_str("Test message sent.")),
        Err(e) => (false, e),
    }
}

} // verus!
