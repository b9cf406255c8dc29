use gar::{
    is_terminal, on_dispatched, poll_step, replay_wait, Command, GarError, PollAction, PollEvent,
    PollPhase, RunStatus, RunWorkflowCommand, POLL_MILLIS, SETTLE_MILLIS,
};

fn st(status: &str, conclusion: Option<&str>) -> Option<RunStatus> {
    Some(RunStatus { status: status.to_string(), conclusion: conclusion.map(|c| c.to_string()) })
}

#[test]
fn dispatch_then_two_polls_reports_success() {
    let (phase, action) = RunWorkflowCommand::after_dispatch(true).unwrap();
    assert!(matches!(phase, PollPhase::Dispatched));
    assert!(matches!(action, PollAction::Pause { millis: 2000 }));
    let (phase, action) = poll_step(phase, PollEvent::PauseElapsed);
    assert!(matches!(phase, PollPhase::Settling));
    assert!(matches!(action, PollAction::ListRuns));
    let (phase, action) = poll_step(phase, PollEvent::RunsListed { first: Some(42) });
    assert!(matches!(action, PollAction::FetchRun { run_id: 42 }));
    let mut fetches = 1;
    let (phase, action) = poll_step(phase, PollEvent::RunFetched { run: st("in_progress", None) });
    assert!(matches!(phase, PollPhase::Waiting { run_id: 42 }));
    assert!(matches!(action, PollAction::Pause { millis: 5000 }));
    let (phase, action) = poll_step(phase, PollEvent::PauseElapsed);
    assert!(matches!(action, PollAction::FetchRun { run_id: 42 }));
    fetches += 1;
    let (phase, action) =
        poll_step(phase, PollEvent::RunFetched { run: st("completed", Some("success")) });
    match (phase, action) {
        (PollPhase::Terminal { conclusion }, PollAction::Report { conclusion: shown }) => {
            assert_eq!(conclusion, "success");
            assert_eq!(shown, "success");
        }
        _ => panic!("the wait must end on a completed status"),
    }
    assert_eq!(fetches, 2);
}

#[test]
fn replay_stops_after_two_fetches() {
    let script = vec![st("in_progress", None), st("completed", Some("success")), st("queued", None)];
    match replay_wait(42, &script) {
        (PollPhase::Terminal { conclusion }, used) => {
            assert_eq!(conclusion, "success");
            assert_eq!(used, 2);
        }
        _ => panic!("expected the wait to end"),
    }
}

#[test]
fn not_found_keeps_waiting() {
    let (phase, action) = poll_step(PollPhase::Waiting { run_id: 5 }, PollEvent::RunFetched { run: None });
    assert!(matches!(phase, PollPhase::Waiting { run_id: 5 }));
    assert!(matches!(action, PollAction::Pause { millis: POLL_MILLIS }));
    let script = vec![None, st("queued", None), None, st("failure", None), st("completed", Some("success"))];
    match replay_wait(5, &script) {
        (PollPhase::Terminal { conclusion }, used) => {
            assert_eq!(conclusion, "unknown");
            assert_eq!(used, 4);
        }
        _ => panic!("expected the wait to end"),
    }
}

#[test]
fn no_terminal_status_keeps_waiting() {
    let script = vec![st("in_progress", None), None, st("queued", None)];
    let (phase, used) = replay_wait(9, &script);
    assert!(matches!(phase, PollPhase::Waiting { run_id: 9 }));
    assert_eq!(used, 3);
}

#[test]
fn empty_listing_fails_the_wait() {
    let (phase, action) = poll_step(PollPhase::Settling, PollEvent::RunsListed { first: None });
    assert!(matches!(phase, PollPhase::Failed));
    assert!(matches!(action, PollAction::Fail { error: GarError::NoRunsFound }));
}

#[test]
fn failed_dispatch_is_an_error() {
    assert!(matches!(RunWorkflowCommand::after_dispatch(false), Err(GarError::DispatchFailed)));
}

#[test]
fn settling_pause_and_terminal_statuses() {
    let (phase, action) = on_dispatched();
    assert!(matches!(phase, PollPhase::Dispatched));
    assert!(matches!(action, PollAction::Pause { millis } if millis == SETTLE_MILLIS));
    assert!(is_terminal(&"completed".to_string()));
    assert!(is_terminal(&"failure".to_string()));
    assert!(!is_terminal(&"in_progress".to_string()));
    assert!(!is_terminal(&"success".to_string()));
}

#[test]
fn unexpected_event_is_ignored() {
    let (phase, action) = poll_step(PollPhase::Dispatched, PollEvent::RunsListed { first: Some(1) });
    assert!(matches!(phase, PollPhase::Dispatched));
    assert!(matches!(action, PollAction::Idle));
    let cmd = Command::new("t".into(), "o".into(), "r".into(), "main".into());
    let _ = RunWorkflowCommand::new(cmd, String::new());
}
