use blendbar::outbox::{job_outcome, next_tick, sweeps_expired, JobOutcome};
use blendbar::status_counts::status_counts;

#[test]
fn retries_back_off_and_give_up() {
    assert_eq!(job_outcome(0, None), JobOutcome::Succeeded);
    assert_eq!(job_outcome(0, Some(true)), JobOutcome::Retry { attempts: 1, backoff_secs: 10 });
    assert_eq!(job_outcome(1, Some(true)), JobOutcome::Retry { attempts: 2, backoff_secs: 20 });
    assert_eq!(job_outcome(4, Some(true)), JobOutcome::Retry { attempts: 5, backoff_secs: 160 });
    assert_eq!(job_outcome(5, Some(true)), JobOutcome::Failed { attempts: 6 });
    assert_eq!(job_outcome(0, Some(false)), JobOutcome::Failed { attempts: 1 });
    assert_eq!(job_outcome(-1, Some(true)), JobOutcome::Retry { attempts: 0, backoff_secs: 5 });
    assert_eq!(job_outcome(-9, Some(false)), JobOutcome::Failed { attempts: -8 });
    assert_eq!(job_outcome(i32::MAX, None), JobOutcome::Succeeded);
}

#[test]
fn the_expiry_sweep_runs_every_hundred_and_twenty_ticks() {
    assert!(sweeps_expired(0));
    assert!(!sweeps_expired(1));
    assert!(sweeps_expired(240));
    assert_eq!(next_tick(u32::MAX), 0);
    assert_eq!(next_tick(7), 8);
}

#[test]
fn counts_list_every_status() {
    let rows = vec![("failed".to_string(), 3i64), ("sent".to_string(), 9i64)];
    let counts = status_counts(&vec!["pending", "sent", "failed"], &rows);
    assert_eq!(counts.len(), 3);
    let get = |k: &str| counts.iter().find(|(s, _)| s == k).map(|(_, n)| *n);
    assert_eq!(get("pending"), Some(0));
    assert_eq!(get("sent"), Some(9));
    assert_eq!(get("failed"), Some(3));
    let odd = status_counts(&vec!["pending"], &vec![("weird".to_string(), 1i64), ("weird".to_string(), 2i64)]);
    assert_eq!(odd.len(), 2);
    assert_eq!(odd.iter().find(|(s, _)| s == "weird").map(|(_, n)| *n), Some(2));
}
