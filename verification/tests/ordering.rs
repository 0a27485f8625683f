use herdr_title_rename::run::Mode;
use herdr_title_rename::steps::{after_step, first_step, RunEvent, RunStep};

/// The steps of a run in which one step, if any, fails.
fn steps(mode: Mode, failing: Option<RunStep>) -> Vec<RunStep> {
    let mut done = Vec::new();
    let mut step = first_step(mode);
    while step != RunStep::End {
        done.push(step);
        let event = if failing == Some(step) {
            RunEvent::Failed
        } else {
            RunEvent::Succeeded
        };
        step = after_step(mode, step, event);
    }
    done
}

const APPLYING: [RunStep; 10] = [
    RunStep::LoadConfig,
    RunStep::FindState,
    RunStep::TakeLock,
    RunStep::ReadState,
    RunStep::FetchSnapshot,
    RunStep::MakePlan,
    RunStep::SaveState,
    RunStep::SendRequests,
    RunStep::LogTitle,
    RunStep::Settle,
];

#[test]
fn a_run_locks_reads_plans_saves_and_sends() {
    assert_eq!(steps(Mode::Apply, None), APPLYING.to_vec());
}

#[test]
fn a_dry_run_only_reads_and_reports() {
    assert_eq!(
        steps(Mode::DryRun, None),
        vec![
            RunStep::LoadConfig,
            RunStep::FindState,
            RunStep::ReadState,
            RunStep::FetchSnapshot,
            RunStep::MakePlan,
            RunStep::Report,
        ]
    );
}

#[test]
fn clearing_is_a_single_step() {
    assert_eq!(steps(Mode::Clear, None), vec![RunStep::ClearTitle]);
    assert_eq!(
        steps(Mode::Clear, Some(RunStep::ClearTitle)),
        vec![RunStep::ClearTitle]
    );
}

#[test]
fn a_state_that_cannot_be_saved_stops_the_run() {
    assert_eq!(
        steps(Mode::Apply, Some(RunStep::SaveState)),
        APPLYING[..7].to_vec()
    );
    assert_eq!(
        steps(Mode::Apply, Some(RunStep::FetchSnapshot)),
        APPLYING[..5].to_vec()
    );
}

#[test]
fn a_missing_lock_state_or_reply_does_not_stop_the_run() {
    for step in [RunStep::TakeLock, RunStep::ReadState, RunStep::SendRequests] {
        assert_eq!(steps(Mode::Apply, Some(step)), APPLYING.to_vec());
    }
}
