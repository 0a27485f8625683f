//! The order in which a run does its work, and what stops it.

use vstd::prelude::*;

use crate::run::Mode;

verus! {

/// A piece of work in a run.
#[derive(Debug, Clone, Copy, PartialEq, Eq, Structural)]
pub enum RunStep {
    /// Send the request that clears the window title.
    ClearTitle,
    /// Load the configuration.
    LoadConfig,
    /// Find out where the state file is.
    FindState,
    /// Take the lock on the state file.
    TakeLock,
    /// Read the state file.
    ReadState,
    /// Ask the server for a snapshot.
    FetchSnapshot,
    /// Work out the plan.
    MakePlan,
    /// Print what would be done.
    Report,
    /// Write the state file.
    SaveState,
    /// Send the requests that carry out the plan, each of them.
    SendRequests,
    /// Print the title: standard output is the log.
    LogTitle,
    /// Work out how the run ends from what became of the requests.
    Settle,
    /// Nothing: the run is over.
    End,
}

/// What became of a piece of work.
#[derive(Debug, Clone, Copy, PartialEq, Eq, Structural)]
pub enum RunEvent {
    Succeeded,
    Failed,
}

/// The work that a run begins with.
pub open spec fn opening_step(mode: Mode) -> RunStep {
    match mode {
        Mode::Clear => RunStep::ClearTitle,
        _ => RunStep::LoadConfig,
    }
}

/// Work whose failure does not stop the run. The lock is best effort, a state
/// file that cannot be read counts as none, and a request that failed is only
/// reported.
pub open spec fn is_best_effort(step: RunStep) -> bool {
    step is TakeLock || step is ReadState || step is SendRequests
}

/// The work that comes next.
pub open spec fn next_step(mode: Mode, step: RunStep, event: RunEvent) -> RunStep {
    if event is Failed && !is_best_effort(step) {
        RunStep::End
    } else {
        match step {
            RunStep::ClearTitle => RunStep::End,
            RunStep::LoadConfig => RunStep::FindState,
            RunStep::FindState => if mode is DryRun {
                RunStep::ReadState
            } else {
                RunStep::TakeLock
            },
            RunStep::TakeLock => RunStep::ReadState,
            RunStep::ReadState => RunStep::FetchSnapshot,
            RunStep::FetchSnapshot => RunStep::MakePlan,
            // Saved before anything is sent: if a rename fails we would rather
            // skip it than issue it again on every later event.
            RunStep::MakePlan => if mode is DryRun {
                RunStep::Report
            } else {
                RunStep::SaveState
            },
            RunStep::Report => RunStep::End,
            RunStep::SaveState => RunStep::SendRequests,
            RunStep::SendRequests => RunStep::LogTitle,
            RunStep::LogTitle => RunStep::Settle,
            RunStep::Settle => RunStep::End,
            RunStep::End => RunStep::End,
        }
    }
}

/// The work that a run begins with.
pub fn first_step(mode: Mode) -> (step: RunStep)
    ensures
        step == opening_step(mode),
{
    match mode {
        Mode::Clear => RunStep::ClearTitle,
        _ => RunStep::LoadConfig,
    }
}

/// The work that comes after `step`, where `event` is what became of it.
pub fn after_step(mode: Mode, step: RunStep, event: RunEvent) -> (next: RunStep)
    ensures
        next == next_step(mode, step, event),
{
    match (step, event) {
        (RunStep::TakeLock, _) => RunStep::ReadState,
        (RunStep::ReadState, _) => RunStep::FetchSnapshot,
        (RunStep::SendRequests, _) => RunStep::LogTitle,
        (_, RunEvent::Failed) => RunStep::End,
        (RunStep::LoadConfig, _) => RunStep::FindState,
        (RunStep::FindState, _) => match mode {
            Mode::DryRun => RunStep::ReadState,
            _ => RunStep::TakeLock,
        },
        (RunStep::FetchSnapshot, _) => RunStep::MakePlan,
        (RunStep::MakePlan, _) => match mode {
            Mode::DryRun => RunStep::Report,
            _ => RunStep::SaveState,
        },
        (RunStep::SaveState, _) => RunStep::SendRequests,
        (RunStep::LogTitle, _) => RunStep::Settle,
        _ => RunStep::End,
    }
}

/// The work that a run has come to after these events.
pub open spec fn step_reached(mode: Mode, events: Seq<RunEvent>) -> RunStep
    decreases events.len(),
{
    if events.len() == 0 {
        opening_step(mode)
    } else {
        next_step(mode, step_reached(mode, events.drop_last()), events.last())
    }
}

/// Work that changes the session or a file.
pub open spec fn changes_something(step: RunStep) -> bool {
    step is ClearTitle || step is TakeLock || step is SaveState || step is SendRequests
}

/// How much work comes before this one.
spec fn position(mode: Mode, step: RunStep) -> int {
    let locked: int = if mode is DryRun {
        0
    } else {
        1
    };
    match step {
        RunStep::ClearTitle | RunStep::LoadConfig => 0,
        RunStep::FindState => 1,
        RunStep::TakeLock => 2,
        RunStep::ReadState => 2 + locked,
        RunStep::FetchSnapshot => 3 + locked,
        RunStep::MakePlan => 4 + locked,
        RunStep::Report => 5,
        RunStep::SaveState => 6,
        RunStep::SendRequests => 7,
        RunStep::LogTitle => 8,
        RunStep::Settle => 9,
        RunStep::End => 10,
    }
}

/// Where a run can be: each piece of work has its place, and what follows the
/// saving of the state follows a saving that succeeded.
proof fn lemma_step_reached(mode: Mode, events: Seq<RunEvent>)
    ensures
        ({
            let step = step_reached(mode, events);
            &&& step is End || events.len() == position(mode, step)
            &&& mode is Clear ==> step is ClearTitle || step is End
            &&& mode is DryRun ==> !changes_something(step) && !(step is LogTitle)
                && !(step is Settle)
            &&& step is SendRequests || step is LogTitle || step is Settle ==> step_reached(
                mode,
                events.take(6),
            ) is SaveState && events[6] is Succeeded
        }),
    decreases events.len(),
{
    if events.len() > 0 {
        let before = events.drop_last();
        lemma_step_reached(mode, before);
        if events.len() == 7 {
            assert(events.take(6) =~= before);
        } else if events.len() > 7 {
            assert(events.take(6) =~= before.take(6));
        }
    }
}

/// A run comes to its end, after ten pieces of work at most.
pub proof fn every_run_ends(mode: Mode, events: Seq<RunEvent>)
    requires
        events.len() >= 10,
    ensures
        step_reached(mode, events) is End,
{
    lemma_step_reached(mode, events);
}

/// A dry run changes nothing: it takes no lock, writes no state and sends no
/// request but the one for the snapshot.
pub proof fn a_dry_run_changes_nothing(events: Seq<RunEvent>)
    ensures
        !changes_something(step_reached(Mode::DryRun, events)),
{
    lemma_step_reached(Mode::DryRun, events);
}

/// A run that clears the title does nothing else.
pub proof fn clearing_the_title_touches_nothing_else(events: Seq<RunEvent>)
    ensures
        step_reached(Mode::Clear, events) == if events.len() == 0 {
            RunStep::ClearTitle
        } else {
            RunStep::End
        },
{
    lemma_step_reached(Mode::Clear, events);
}

/// Nothing is sent before the state is saved: a run that sends its requests has
/// saved the state, and the saving succeeded.
pub proof fn nothing_is_sent_before_the_state_is_saved(mode: Mode, events: Seq<RunEvent>)
    requires
        step_reached(mode, events) is SendRequests,
    ensures
        exists|k: int|
            0 <= k < events.len() && step_reached(mode, #[trigger] events.take(k)) is SaveState
                && events[k] is Succeeded,
{
    lemma_step_reached(mode, events);
    assert(step_reached(mode, events.take(6)) is SaveState);
}

/// Where the state cannot be saved nothing is sent, neither before nor after.
pub proof fn nothing_is_sent_where_the_state_cannot_be_saved(
    mode: Mode,
    events: Seq<RunEvent>,
    save: int,
    count: int,
)
    requires
        0 <= save < events.len(),
        step_reached(mode, events.take(save)) is SaveState,
        events[save] is Failed,
        0 <= count <= events.len(),
    ensures
        !(step_reached(mode, events.take(count)) is SendRequests),
{
    lemma_step_reached(mode, events.take(save));
    lemma_step_reached(mode, events.take(count));
}

/// The work of a run that applies its plan.
pub open spec fn applying_order() -> Seq<RunStep> {
    seq![
        RunStep::LoadConfig,
        RunStep::FindState,
        RunStep::TakeLock,
        RunStep::ReadState,
        RunStep::FetchSnapshot,
        RunStep::MakePlan,
        RunStep::SaveState,
        RunStep::SendRequests,
        RunStep::LogTitle,
        RunStep::Settle,
    ]
}

/// A run that applies its plan locks, reads, plans, saves, sends and logs, in
/// this order, as long as nothing fails that has to succeed.
pub proof fn an_applying_run_in_order(events: Seq<RunEvent>)
    requires
        forall|i: int|
            0 <= i < events.len() && i < 10 ==> #[trigger] events[i] is Succeeded
                || is_best_effort(applying_order()[i]),
    ensures
        step_reached(Mode::Apply, events) == if events.len() < 10 {
            applying_order()[events.len() as int]
        } else {
            RunStep::End
        },
    decreases events.len(),
{
    if events.len() > 0 {
        let before = events.drop_last();
        assert(forall|i: int| 0 <= i < before.len() ==> #[trigger] before[i] == events[i]);
        an_applying_run_in_order(before);
    }
}

/// No work is done twice in a run; the session is asked for one snapshot.
pub proof fn no_work_is_done_twice(mode: Mode, events: Seq<RunEvent>, one: int, other: int)
    requires
        0 <= one <= events.len(),
        0 <= other <= events.len(),
        step_reached(mode, events.take(one)) == step_reached(mode, events.take(other)),
        !(step_reached(mode, events.take(one)) is End),
    ensures
        one == other,
{
    lemma_step_reached(mode, events.take(one));
    lemma_step_reached(mode, events.take(other));
}

/// The work of a dry run.
pub open spec fn dry_order() -> Seq<RunStep> {
    seq![
        RunStep::LoadConfig,
        RunStep::FindState,
        RunStep::ReadState,
        RunStep::FetchSnapshot,
        RunStep::MakePlan,
        RunStep::Report,
    ]
}

/// A dry run reads, plans and reports, in this order, as long as nothing fails
/// that has to succeed; a state file that cannot be read is nothing of the kind.
pub proof fn a_dry_run_in_order(events: Seq<RunEvent>)
    requires
        forall|i: int|
            0 <= i < events.len() && i < 6 && i != 2 ==> #[trigger] events[i] is Succeeded,
    ensures
        step_reached(Mode::DryRun, events) == if events.len() < 6 {
            dry_order()[events.len() as int]
        } else {
            RunStep::End
        },
    decreases events.len(),
{
    if events.len() > 0 {
        let before = events.drop_last();
        assert(forall|i: int| 0 <= i < before.len() ==> #[trigger] before[i] == events[i]);
        a_dry_run_in_order(before);
    }
}

/// A failure ends the run, save that of the lock, of reading the state and of
/// sending, which change nothing about what comes next.
pub proof fn a_failure_ends_the_run(mode: Mode, step: RunStep)
    ensures
        step == RunStep::TakeLock || step == RunStep::ReadState || step == RunStep::SendRequests
            ==> next_step(mode, step, RunEvent::Failed) == next_step(
            mode,
            step,
            RunEvent::Succeeded,
        ),
        step != RunStep::TakeLock && step != RunStep::ReadState && step != RunStep::SendRequests
            ==> next_step(mode, step, RunEvent::Failed) == RunStep::End,
        next_step(mode, RunStep::End, RunEvent::Succeeded) == RunStep::End,
{
}

} // verus!
