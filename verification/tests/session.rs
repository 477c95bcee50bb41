use split51::session::{
    after_acquire, after_wait, AfterAcquire, AfterWait, CaptureLoop, CaptureSession, Pass,
    SessionAction, SessionEvent, SessionState, VOLUME_POLL_PERIOD, WAIT_TIMEOUT_MS,
};

#[test]
fn a_route_goes_through_all_four_states() {
    let mut session = CaptureSession::new();
    assert_eq!(session.state(), SessionState::Stopped);
    assert!(!session.may_process());
    assert_eq!(session.handle(SessionEvent::StartRequested), SessionAction::BeginSetup);
    assert_eq!(session.state(), SessionState::Starting);
    assert!(!session.may_process());
    assert_eq!(session.handle(SessionEvent::SetupSucceeded), SessionAction::EnterLoop);
    assert_eq!(session.state(), SessionState::Running);
    assert!(session.may_process());
    assert_eq!(session.handle(SessionEvent::StopRequested), SessionAction::SignalAndJoin);
    assert_eq!(session.state(), SessionState::Stopping);
    assert!(!session.may_process());
    assert_eq!(session.handle(SessionEvent::ThreadJoined), SessionAction::Nothing);
    assert_eq!(session.state(), SessionState::Stopped);
}

#[test]
fn a_failed_setup_leaves_the_route_stopped() {
    let mut session = CaptureSession::new();
    session.handle(SessionEvent::StartRequested);
    assert_eq!(session.handle(SessionEvent::SetupFailed), SessionAction::ReportFailure);
    assert_eq!(session.state(), SessionState::Stopped);
    assert_eq!(session.handle(SessionEvent::StartRequested), SessionAction::BeginSetup);
}

#[test]
fn a_device_failure_stops_the_route_until_it_is_started_again() {
    let mut session = CaptureSession::new();
    session.handle(SessionEvent::StartRequested);
    session.handle(SessionEvent::SetupSucceeded);
    assert_eq!(session.handle(SessionEvent::DeviceFailed), SessionAction::ReportFailure);
    assert_eq!(session.state(), SessionState::Stopped);
    assert_eq!(session.handle(SessionEvent::SetupSucceeded), SessionAction::Nothing);
    assert_eq!(session.state(), SessionState::Stopped);
    assert_eq!(session.handle(SessionEvent::StartRequested), SessionAction::BeginSetup);
}

#[test]
fn starting_anew_first_stops_the_running_route() {
    let mut session = CaptureSession::new();
    session.handle(SessionEvent::StartRequested);
    session.handle(SessionEvent::SetupSucceeded);
    assert_eq!(session.handle(SessionEvent::StartRequested), SessionAction::SignalAndJoin);
    assert_eq!(session.state(), SessionState::Stopping);
    assert_eq!(session.handle(SessionEvent::StartRequested), SessionAction::Nothing);
    assert_eq!(session.handle(SessionEvent::ThreadJoined), SessionAction::Nothing);
    assert_eq!(session.handle(SessionEvent::StartRequested), SessionAction::BeginSetup);
}

#[test]
fn events_without_meaning_change_nothing() {
    let mut session = CaptureSession::new();
    for event in [
        SessionEvent::SetupSucceeded,
        SessionEvent::SetupFailed,
        SessionEvent::DeviceFailed,
        SessionEvent::StopRequested,
        SessionEvent::ThreadJoined,
    ] {
        assert_eq!(session.handle(event), SessionAction::Nothing);
        assert_eq!(session.state(), SessionState::Stopped);
    }
}

#[test]
fn device_volume_is_read_on_every_fifth_pass_when_synced() {
    let mut capture = CaptureLoop::new();
    let mut polled = Vec::new();
    for pass in 1..=12 {
        match capture.next_pass(true, true) {
            Pass::Wait { poll_device_volume } => {
                if poll_device_volume {
                    polled.push(pass);
                }
            }
            Pass::Exit => panic!("a running loop was told to exit"),
        }
    }
    assert_eq!(polled, vec![5, 10]);
    assert_eq!(VOLUME_POLL_PERIOD, 5);
    assert_eq!(WAIT_TIMEOUT_MS, 100);
}

#[test]
fn passes_are_counted_while_the_sync_is_off() {
    let mut capture = CaptureLoop::new();
    for _ in 0..4 {
        assert_eq!(capture.next_pass(true, false), Pass::Wait { poll_device_volume: false });
    }
    assert_eq!(capture.next_pass(true, false), Pass::Wait { poll_device_volume: false });
    for _ in 0..4 {
        assert_eq!(capture.next_pass(true, true), Pass::Wait { poll_device_volume: false });
    }
    assert_eq!(capture.next_pass(true, true), Pass::Wait { poll_device_volume: true });
}

#[test]
fn a_loop_that_no_longer_runs_exits() {
    let mut capture = CaptureLoop::new();
    for _ in 0..4 {
        capture.next_pass(true, true);
    }
    assert_eq!(capture.next_pass(false, true), Pass::Exit);
    assert_eq!(capture.next_pass(true, true), Pass::Wait { poll_device_volume: true });
}

#[test]
fn buffers_are_drained_only_after_a_signal() {
    assert_eq!(after_wait(true), AfterWait::Drain);
    assert_eq!(after_wait(false), AfterWait::NextPass);
    assert_eq!(after_acquire(true, 480), AfterAcquire::Process);
    assert_eq!(after_acquire(true, 0), AfterAcquire::Done);
    assert_eq!(after_acquire(false, 480), AfterAcquire::Done);
    assert_eq!(after_acquire(false, 0), AfterAcquire::Done);
}
