//! The lock on the state file: events can fire concurrently, and the runs they
//! start share one file.

use vstd::prelude::*;

verus! {

/// How often a run tries for the lock before it goes on without it.
pub const LOCK_ATTEMPTS: u32 = 50;

/// How long a run waits after an attempt that calls for it, in milliseconds.
pub const LOCK_WAIT_MILLIS: u64 = 10;

/// A lock older than this, in nanoseconds, is assumed to belong to a run that
/// died.
pub const LOCK_STALE_AFTER: u128 = 5_000_000_000;

/// What became of an attempt to create the lock file.
#[derive(Debug, Clone, Copy, PartialEq, Eq, Structural)]
pub enum Attempt {
    /// The file is ours.
    Created,
    /// The file could not be created. Its age, in nanoseconds, is absent where
    /// it could not be told.
    Failed { age: Option<u128> },
}

/// What to do next.
#[derive(Debug, Clone, Copy, PartialEq, Eq, Structural)]
pub enum LockStep {
    /// Go on, holding the lock.
    Hold,
    /// Remove the file of a run that died and try again at once.
    Break,
    /// Give the run that holds the lock some time: `LOCK_WAIT_MILLIS`.
    Wait,
}

/// Whether a lock of this age was left behind by a run that died. One whose age
/// cannot be told was not.
pub open spec fn is_stale_age(age: Option<u128>) -> bool {
    match age {
        Some(age) => age > LOCK_STALE_AFTER,
        None => false,
    }
}

/// Whether a lock of this age was left behind by a run that died.
pub fn is_stale(age: Option<u128>) -> (r: bool)
    ensures
        r == is_stale_age(age),
{
    match age {
        Some(age) => age > LOCK_STALE_AFTER,
        None => false,
    }
}

/// What an attempt calls for.
pub open spec fn step_after(attempt: Attempt) -> LockStep {
    match attempt {
        Attempt::Created => LockStep::Hold,
        Attempt::Failed { age } => if is_stale_age(age) {
            LockStep::Break
        } else {
            LockStep::Wait
        },
    }
}

/// What to do after an attempt, with `left` attempts left before it, and how
/// many are left after it; with none left the run goes on without the lock.
/// Best effort: serialise concurrent runs, but never block an event for long. A
/// lock left behind by a killed run is broken once it goes stale.
pub fn lock_step(left: u32, attempt: Attempt) -> (r: (LockStep, u32))
    requires
        left > 0,
    ensures
        r.0 == step_after(attempt),
        r.1 == left - 1,
{
    let step: LockStep = match attempt {
        Attempt::Created => LockStep::Hold,
        Attempt::Failed { age } => if is_stale(age) {
            LockStep::Break
        } else {
            LockStep::Wait
        },
    };
    (step, left - 1)
}

/// The steps of a run that has `left` attempts, where `attempts` holds what
/// would become of each: it stops when it holds the lock, or when no attempt is
/// left.
pub open spec fn steps_taken(left: nat, attempts: Seq<Attempt>) -> Seq<LockStep>
    decreases left,
{
    if left == 0 || attempts.len() == 0 {
        Seq::empty()
    } else {
        let step = step_after(attempts.first());
        if step is Hold {
            seq![step]
        } else {
            seq![step] + steps_taken((left - 1) as nat, attempts.drop_first())
        }
    }
}

/// The milliseconds that the steps spend waiting.
pub open spec fn time_waited(steps: Seq<LockStep>) -> nat
    decreases steps.len(),
{
    if steps.len() == 0 {
        0
    } else {
        time_waited(steps.drop_first()) + if steps.first() is Wait {
            LOCK_WAIT_MILLIS as nat
        } else {
            0
        }
    }
}

proof fn lemma_steps_taken(left: nat, attempts: Seq<Attempt>)
    ensures
        steps_taken(left, attempts).len() <= left,
        time_waited(steps_taken(left, attempts)) <= 10 * left,
        forall|i: int|
            0 <= i < steps_taken(left, attempts).len() ==> i < attempts.len() && (
            #[trigger] steps_taken(left, attempts)[i]) == step_after(attempts[i]),
        steps_taken(left, attempts).contains(LockStep::Hold) <==> exists|i: int|
            0 <= i < attempts.len() && i < left && (#[trigger] attempts[i]) is Created,
    decreases left,
{
    if left > 0 && attempts.len() > 0 {
        let step = step_after(attempts.first());
        let steps = steps_taken(left, attempts);
        if step is Hold {
            assert(steps[0] is Hold);
            assert(attempts[0] is Created);
            assert(steps.drop_first() =~= Seq::empty());
            assert(time_waited(steps.drop_first()) == 0);
        } else {
            let rest = steps_taken((left - 1) as nat, attempts.drop_first());
            lemma_steps_taken((left - 1) as nat, attempts.drop_first());
            assert(steps.drop_first() =~= rest);
            if rest.contains(LockStep::Hold) {
                let i = choose|i: int| 0 <= i < rest.len() && rest[i] == LockStep::Hold;
                assert(steps[i + 1] is Hold);
            }
            assert(forall|i: int|
                0 < i < attempts.len() ==> #[trigger] attempts[i] == attempts.drop_first()[i - 1]);
            assert(forall|i: int|
                0 <= i < attempts.len() - 1 ==> #[trigger] attempts.drop_first()[i] == attempts[i
                    + 1]);
            assert(forall|i: int| 0 < i < steps.len() ==> #[trigger] steps[i] == rest[i - 1]);
            if steps.contains(LockStep::Hold) {
                let i = choose|i: int| 0 <= i < steps.len() && steps[i] == LockStep::Hold;
                assert(rest[i - 1] is Hold);
            }
        }
    }
}

/// The lock never blocks an event for long: a run takes at most fifty steps for
/// it, and waits for at most half a second in all.
pub proof fn the_lock_never_blocks_for_long(attempts: Seq<Attempt>)
    ensures
        steps_taken(LOCK_ATTEMPTS as nat, attempts).len() <= 50,
        time_waited(steps_taken(LOCK_ATTEMPTS as nat, attempts)) <= LOCK_ATTEMPTS
            * LOCK_WAIT_MILLIS,
        LOCK_ATTEMPTS * LOCK_WAIT_MILLIS == 500,
{
    lemma_steps_taken(LOCK_ATTEMPTS as nat, attempts);
}

/// A run comes to hold the lock exactly when one of its attempts, of which there
/// are at most fifty, created the file.
pub proof fn the_lock_is_held_once_it_is_created(attempts: Seq<Attempt>)
    ensures
        steps_taken(LOCK_ATTEMPTS as nat, attempts).contains(LockStep::Hold) <==> exists|i: int|
            0 <= i < attempts.len() && i < 50 && (#[trigger] attempts[i]) is Created,
{
    lemma_steps_taken(LOCK_ATTEMPTS as nat, attempts);
}

/// A run breaks a lock only where it is stale.
pub proof fn only_a_stale_lock_is_broken(attempts: Seq<Attempt>, i: int)
    requires
        0 <= i < steps_taken(LOCK_ATTEMPTS as nat, attempts).len(),
        steps_taken(LOCK_ATTEMPTS as nat, attempts)[i] is Break,
    ensures
        attempts[i] matches Attempt::Failed { age: Some(age) } && age > LOCK_STALE_AFTER,
{
    lemma_steps_taken(LOCK_ATTEMPTS as nat, attempts);
}

/// What an attempt calls for: a file that was created is held; a file that is
/// more than five seconds old is broken; any other, and one whose age cannot be
/// told, is waited for.
pub proof fn attempts_in_words(age: u128)
    ensures
        step_after(Attempt::Created) is Hold,
        age > 5_000_000_000 ==> step_after(Attempt::Failed { age: Some(age) }) is Break,
        age <= 5_000_000_000 ==> step_after(Attempt::Failed { age: Some(age) }) is Wait,
        step_after(Attempt::Failed { age: None }) is Wait,
        is_stale_age(Some(age)) <==> age > 5_000_000_000,
        !is_stale_age(None),
        LOCK_ATTEMPTS == 50,
        LOCK_WAIT_MILLIS == 10,
{
}

} // verus!
