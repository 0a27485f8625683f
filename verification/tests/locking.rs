use herdr_title_rename::lock::{
    is_stale, lock_step, Attempt, LockStep, LOCK_ATTEMPTS, LOCK_WAIT_MILLIS,
};

#[test]
fn a_lock_goes_stale_after_five_seconds() {
    assert!(!is_stale(None));
    assert!(!is_stale(Some(0)));
    assert!(!is_stale(Some(5_000_000_000)));
    assert!(is_stale(Some(5_000_000_001)));
}

#[test]
fn a_failed_attempt_breaks_or_waits() {
    assert_eq!(lock_step(50, Attempt::Created), (LockStep::Hold, 49));
    assert_eq!(
        lock_step(50, Attempt::Failed { age: Some(6_000_000_000) }),
        (LockStep::Break, 49)
    );
    assert_eq!(
        lock_step(1, Attempt::Failed { age: Some(1_000_000) }),
        (LockStep::Wait, 0)
    );
    assert_eq!(lock_step(1, Attempt::Failed { age: None }), (LockStep::Wait, 0));
    assert_eq!(LOCK_ATTEMPTS, 50);
}

/// The steps of a run whose attempts all come out alike.
fn steps(attempt: Attempt) -> Vec<LockStep> {
    let mut left = LOCK_ATTEMPTS;
    let mut steps = Vec::new();
    while left > 0 {
        let (step, rest) = lock_step(left, attempt);
        steps.push(step);
        if step == LockStep::Hold {
            break;
        }
        left = rest;
    }
    steps
}

#[test]
fn a_lock_that_stays_taken_costs_half_a_second() {
    let steps = steps(Attempt::Failed { age: Some(1) });
    assert_eq!(steps.len(), 50);
    assert!(steps.iter().all(|step| *step == LockStep::Wait));
    assert_eq!(steps.len() as u64 * LOCK_WAIT_MILLIS, 500);
}

#[test]
fn a_free_lock_is_held_at_once() {
    assert_eq!(steps(Attempt::Created), vec![LockStep::Hold]);
}
