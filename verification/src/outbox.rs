//! The outbox worker's decisions: what becomes of a sync job after an attempt,
//! and which ticks of the polling loop also sweep for abandoned checkouts.
//!
//! Delivery is at-least-once: a job is retried with exponential backoff while
//! its failures are transient, and given up on after [`MAX_ATTEMPTS`].

use vstd::prelude::*;
use crate::accounts::Customer;
use crate::ident::{push_id_text, spec_id_text};
use crate::square::{CustomerPush, SquareError};
use crate::text::push_str;

verus! {

/// Give up (mark `failed`) after this many attempts on a retryable error.
pub const MAX_ATTEMPTS: i32 = 6;

/// Seconds between polls of the outbox.
pub const POLL_INTERVAL_SECS: u64 = 5;

/// Jobs taken per poll.
pub const BATCH: i64 = 20;

/// A payment link nobody used within this many hours is treated as abandoned.
pub const CHECKOUT_TTL_HOURS: i64 = 24;

/// Sweep for abandoned checkouts every N polls (~10 minutes at a 5s poll).
pub const EXPIRY_EVERY: u32 = 120;

/// What happens to a job after an attempt.
#[derive(Debug, PartialEq, Eq, Structural)]
pub enum JobOutcome {
    /// The push went through.
    Succeeded,
    /// Given up on: the error is permanent or the attempts are used up.
    Failed { attempts: i32 },
    /// Try again after `backoff_secs`.
    Retry { attempts: i32, backoff_secs: i64 },
}

pub open spec fn pow2(n: nat) -> nat
    decreases n,
{
    if n == 0 { 1 } else { 2 * pow2((n - 1) as nat) }
}

/// Seconds to wait before attempt number `attempts + 1`: 10s, 20s, 40s, ...
pub open spec fn spec_backoff(attempts: nat) -> int {
    (pow2(attempts) * 5) as int
}

/// The outcome of an attempt on a job that had failed `prior_attempts` times
/// before. `failure` is `None` on success, else whether the error is retryable.
pub open spec fn spec_outcome(prior_attempts: i32, failure: Option<bool>) -> JobOutcome {
    match failure {
        None => JobOutcome::Succeeded,
        Some(retryable) => {
            let attempts = prior_attempts + 1;
            if !retryable || attempts >= MAX_ATTEMPTS {
                JobOutcome::Failed { attempts: attempts as i32 }
            } else {
                JobOutcome::Retry { attempts: attempts as i32, backoff_secs: spec_backoff(attempts as nat) as i64 }
            }
        },
    }
}

/// Settle a job after an attempt. A failure counts one more attempt, which
/// must fit in an `i32`; a retry waits 2^attempts * 5 seconds, which needs a
/// count that is not negative.
pub fn job_outcome(prior_attempts: i32, failure: Option<bool>) -> (r: JobOutcome)
    requires
        failure is Some ==> prior_attempts < i32::MAX,
        failure == Some(true) ==> prior_attempts >= -1,
    ensures
        r == spec_outcome(prior_attempts, failure),
{
    match failure {
        None => JobOutcome::Succeeded,
        Some(retryable) => {
            let attempts = prior_attempts + 1;
            if !retryable || attempts >= MAX_ATTEMPTS {
                JobOutcome::Failed { attempts }
            } else {
                let mut p: i64 = 1;
                let mut i: i32 = 0;
                while i < attempts
                    invariant
                        0 <= i <= attempts < MAX_ATTEMPTS,
                        p == pow2(i as nat),
                        p <= 32,
                    decreases attempts - i,
                {
                    p = p * 2;
                    i = i + 1;
                    proof {
                        assert(pow2(i as nat) == 2 * pow2((i - 1) as nat));
                        if i <= 5 {
                            assert(pow2(5) == 32) by {
                                reveal_with_fuel(pow2, 6);
                            }
                            lemma_pow2_monotone(i as nat, 5);
                        }
                    }
                }
                JobOutcome::Retry { attempts, backoff_secs: p * 5 }
            }
        },
    }
}

proof fn lemma_pow2_monotone(i: nat, j: nat)
    requires
        i <= j,
    ensures
        pow2(i) <= pow2(j),
    decreases j,
{
    if i < j {
        lemma_pow2_monotone(i, (j - 1) as nat);
    }
}

/// Each retry waits twice as long as the one before it.
pub proof fn lemma_backoff_doubles(attempts: nat)
    ensures
        spec_backoff(attempts + 1) == 2 * spec_backoff(attempts),
{
    assert(pow2(attempts + 1) == 2 * pow2(attempts));
}

/// A job that keeps failing transiently is retried after its first five
/// attempts and given up on at exactly the sixth; a permanent error is given up
/// on at once; success always settles the job.
pub proof fn lemma_retry_schedule(prior_attempts: i32, retryable: bool)
    requires
        0 <= prior_attempts < i32::MAX,
    ensures
        spec_outcome(prior_attempts, None) == JobOutcome::Succeeded,
        !retryable ==> spec_outcome(prior_attempts, Some(retryable)) == (JobOutcome::Failed {
            attempts: (prior_attempts + 1) as i32,
        }),
        retryable && prior_attempts < MAX_ATTEMPTS - 1 ==> spec_outcome(prior_attempts, Some(retryable)) is Retry,
        retryable && prior_attempts >= MAX_ATTEMPTS - 1 ==> spec_outcome(prior_attempts, Some(retryable)) is Failed,
        spec_outcome(prior_attempts, Some(retryable)) matches JobOutcome::Retry { attempts, .. }
            ==> attempts == prior_attempts + 1 && attempts < MAX_ATTEMPTS,
{
}

/// Whether a poll also sweeps for abandoned checkouts: the first poll, and every
/// [`EXPIRY_EVERY`]th after it.
pub fn sweeps_expired(tick: u32) -> (r: bool)
    ensures
        r == (tick % EXPIRY_EVERY == 0),
{
    tick % EXPIRY_EVERY == 0
}

/// The next poll's counter; it wraps rather than overflows.
pub fn next_tick(tick: u32) -> (r: u32)
    ensures
        r == if tick == u32::MAX { 0 } else { (tick + 1) as u32 },
{
    if tick == u32::MAX {
        0
    } else {
        tick + 1
    }
}

/// What a contact job pushes: the customer as stored.
pub fn contact_push(customer: &Customer) -> (p: CustomerPush)
    ensures
        p.id == customer.id,
        p.email == customer.email,
        p.name == customer.name,
        p.marketing_consent == customer.marketing_consent,
{
    CustomerPush {
        id: customer.id,
        email: customer.email.clone(),
        name: match &customer.name {
            Some(n) => Some(n.clone()),
            None => None,
        },
        marketing_consent: customer.marketing_consent,
    }
}

/// A job whose customer was deleted in the meantime: nothing to push, and no
/// retry will change that.
pub fn customer_gone(id: u128) -> (e: SquareError)
    ensures
        e matches SquareError::Config(m) && m@ == "customer "@ + spec_id_text(id) + " no longer exists"@,
        !e.spec_retryable(),
{
    let mut m = String::new();
    push_str(&mut m, "customer ");
    push_id_text(&mut m, id);
    push_str(&mut m, " no longer exists");
    SquareError::Config(m)
}

} // verus!
