//! The life of a capture session and the decisions of its loop.
//!
//! A session is `Stopped`, `Starting`, `Running` or `Stopping`.  The code
//! that owns the devices performs each action that a transition asks for
//! and reports back what happened; inside `Running` it asks, once per
//! pass of its loop, what the pass is to do.

use vstd::prelude::*;
use crate::cadence::{Cadence, CadenceState};

verus! {

/// Where a session stands.
#[derive(Debug, Clone, Copy, PartialEq, Eq, Structural)]
pub enum SessionState {
    /// No route is active.
    Stopped,
    /// The capture source is being acquired and the chain built.
    Starting,
    /// The capture loop runs.
    Running,
    /// The loop was told to exit and its thread is being joined.
    Stopping,
}

/// What can happen to a session.
#[derive(Debug, Clone, Copy, PartialEq, Eq, Structural)]
pub enum SessionEvent {
    /// The control surface asks for a route.
    StartRequested,
    /// The source was acquired, its format read and the chain built.
    SetupSucceeded,
    /// The source was not found, or its format or the converter refused.
    SetupFailed,
    /// The device failed while the loop ran.
    DeviceFailed,
    /// The control surface asks to stop.
    StopRequested,
    /// The capture thread has exited and was joined.
    ThreadJoined,
}

/// What the owner of the devices is to do after an event.
#[derive(Debug, Clone, Copy, PartialEq, Eq, Structural)]
pub enum SessionAction {
    /// Nothing.
    Nothing,
    /// Acquire the source, read its format, build converter and chain.
    BeginSetup,
    /// Enter the capture loop.
    EnterLoop,
    /// Hand the failure to the control surface, once.
    ReportFailure,
    /// Tell the loop to exit and join its thread.
    SignalAndJoin,
}

/// The state that follows `state` on `event`.  A request to start while a
/// route is active first stops that route; an event that has no meaning
/// in a state leaves it.
pub open spec fn next_state(state: SessionState, event: SessionEvent) -> SessionState {
    match (state, event) {
        (SessionState::Stopped, SessionEvent::StartRequested) => SessionState::Starting,
        (SessionState::Starting, SessionEvent::SetupSucceeded) => SessionState::Running,
        (SessionState::Starting, SessionEvent::SetupFailed) => SessionState::Stopped,
        (SessionState::Starting, SessionEvent::StopRequested) => SessionState::Stopping,
        (SessionState::Starting, SessionEvent::StartRequested) => SessionState::Stopping,
        (SessionState::Running, SessionEvent::StopRequested) => SessionState::Stopping,
        (SessionState::Running, SessionEvent::StartRequested) => SessionState::Stopping,
        (SessionState::Running, SessionEvent::DeviceFailed) => SessionState::Stopped,
        (SessionState::Stopping, SessionEvent::ThreadJoined) => SessionState::Stopped,
        _ => state,
    }
}

/// The action that `event` asks for in `state`.
pub open spec fn action_for(state: SessionState, event: SessionEvent) -> SessionAction {
    match (state, event) {
        (SessionState::Stopped, SessionEvent::StartRequested) => SessionAction::BeginSetup,
        (SessionState::Starting, SessionEvent::SetupSucceeded) => SessionAction::EnterLoop,
        (SessionState::Starting, SessionEvent::SetupFailed) => SessionAction::ReportFailure,
        (SessionState::Starting, SessionEvent::StopRequested) => SessionAction::SignalAndJoin,
        (SessionState::Starting, SessionEvent::StartRequested) => SessionAction::SignalAndJoin,
        (SessionState::Running, SessionEvent::StopRequested) => SessionAction::SignalAndJoin,
        (SessionState::Running, SessionEvent::StartRequested) => SessionAction::SignalAndJoin,
        (SessionState::Running, SessionEvent::DeviceFailed) => SessionAction::ReportFailure,
        _ => SessionAction::Nothing,
    }
}

/// The state after a run of events.
pub open spec fn state_after(state: SessionState, events: Seq<SessionEvent>) -> SessionState
    decreases events.len(),
{
    if events.len() == 0 {
        state
    } else {
        next_state(state_after(state, events.drop_last()), events.last())
    }
}

/// A capture session.
pub struct CaptureSession {
    state: SessionState,
}

impl View for CaptureSession {
    type V = SessionState;

    closed spec fn view(&self) -> SessionState {
        self.state
    }
}

impl CaptureSession {
    /// A session with no route active.
    pub fn new() -> (r: Self)
        ensures
            r@ == SessionState::Stopped,
    {
        CaptureSession { state: SessionState::Stopped }
    }

    /// Where the session stands.
    pub fn state(&self) -> (r: SessionState)
        ensures
            r == self@,
    {
        self.state
    }

    /// Whether captured buffers may be processed and pushed: only while
    /// the session runs.
    pub fn may_process(&self) -> (r: bool)
        ensures
            r == (self@ == SessionState::Running),
    {
        self.state == SessionState::Running
    }

    /// Takes an event in: moves to the state that follows and says what
    /// is to be done.
    pub fn handle(&mut self, event: SessionEvent) -> (action: SessionAction)
        ensures
            final(self)@ == next_state(old(self)@, event),
            action == action_for(old(self)@, event),
    {
        let (next, action) = match (self.state, event) {
            (SessionState::Stopped, SessionEvent::StartRequested) => (
                SessionState::Starting,
                SessionAction::BeginSetup,
            ),
            (SessionState::Starting, SessionEvent::SetupSucceeded) => (
                SessionState::Running,
                SessionAction::EnterLoop,
            ),
            (SessionState::Starting, SessionEvent::SetupFailed) => (
                SessionState::Stopped,
                SessionAction::ReportFailure,
            ),
            (SessionState::Starting, SessionEvent::StopRequested) => (
                SessionState::Stopping,
                SessionAction::SignalAndJoin,
            ),
            (SessionState::Starting, SessionEvent::StartRequested) => (
                SessionState::Stopping,
                SessionAction::SignalAndJoin,
            ),
            (SessionState::Running, SessionEvent::StopRequested) => (
                SessionState::Stopping,
                SessionAction::SignalAndJoin,
            ),
            (SessionState::Running, SessionEvent::StartRequested) => (
                SessionState::Stopping,
                SessionAction::SignalAndJoin,
            ),
            (SessionState::Running, SessionEvent::DeviceFailed) => (
                SessionState::Stopped,
                SessionAction::ReportFailure,
            ),
            (SessionState::Stopping, SessionEvent::ThreadJoined) => (
                SessionState::Stopped,
                SessionAction::Nothing,
            ),
            (state, _) => (state, SessionAction::Nothing),
        };
        self.state = next;
        action
    }
}

/// From every state, a request to stop followed by the join of the thread
/// ends in `Stopped`.
pub proof fn stop_then_join_reaches_stopped(state: SessionState)
    ensures
        next_state(next_state(state, SessionEvent::StopRequested), SessionEvent::ThreadJoined)
            == SessionState::Stopped,
{
}

/// A session starts to run only out of `Starting`, and only when the
/// setup succeeded; a setup that failed leaves it `Stopped`.
pub proof fn running_needs_a_finished_setup(state: SessionState, event: SessionEvent)
    ensures
        next_state(state, event) == SessionState::Running && state != SessionState::Running ==> state
            == SessionState::Starting && event == SessionEvent::SetupSucceeded,
        next_state(SessionState::Starting, SessionEvent::SetupFailed) == SessionState::Stopped,
{
}

/// The loop is entered exactly on the transition into `Running`, and
/// nothing asks for it in any other state.
pub proof fn loop_is_entered_on_running_only(state: SessionState, event: SessionEvent)
    ensures
        action_for(state, event) == SessionAction::EnterLoop <==> state != SessionState::Running
            && next_state(state, event) == SessionState::Running,
{
}

/// Once a stop was asked for, the session does not run again before a new
/// request to start: no later event but `StartRequested` leads back to
/// `Running`.
pub proof fn stopped_run_stays_out_of_running(state: SessionState, events: Seq<SessionEvent>)
    requires
        forall|i: int| 0 <= i < events.len() ==> events[i] != SessionEvent::StartRequested,
    ensures
        state_after(next_state(state, SessionEvent::StopRequested), events)
            != SessionState::Running,
        state_after(next_state(state, SessionEvent::StopRequested), events)
            != SessionState::Starting,
    decreases events.len(),
{
    if events.len() > 0 {
        let earlier = events.drop_last();
        assert forall|i: int| 0 <= i < earlier.len() implies earlier[i]
            != SessionEvent::StartRequested by {
            assert(earlier[i] == events[i]);
        }
        stopped_run_stays_out_of_running(state, earlier);
    }
}

/// The number of loop passes between two readings of the device volume:
/// about 100 ms at a buffer period of 20 ms.
pub const VOLUME_POLL_PERIOD: u32 = 5;

/// The longest wait for a buffer, in milliseconds.
pub const WAIT_TIMEOUT_MS: u32 = 100;

/// What one pass of the capture loop is to do.
#[derive(Debug, Clone, Copy, PartialEq, Eq, Structural)]
pub enum Pass {
    /// The session no longer runs: leave the loop.
    Exit,
    /// Wait for a buffer; before that, read the device's master volume
    /// and mute state if `poll_device_volume` is set.
    Wait { poll_device_volume: bool },
}

/// What follows a wait for a buffer.
#[derive(Debug, Clone, Copy, PartialEq, Eq, Structural)]
pub enum AfterWait {
    /// The source signalled: drain every buffer it has.
    Drain,
    /// The wait timed out: start the next pass without processing.
    NextPass,
}

/// What follows an attempt to acquire a buffer.
#[derive(Debug, Clone, Copy, PartialEq, Eq, Structural)]
pub enum AfterAcquire {
    /// A buffer with frames came: process it and ask for the next.
    Process,
    /// Nothing more is available on this wake.
    Done,
}

/// The pass counter of a capture loop.
pub struct CaptureLoop {
    poll: Cadence,
}

impl View for CaptureLoop {
    type V = CadenceState;

    closed spec fn view(&self) -> CadenceState {
        self.poll@
    }
}

impl CaptureLoop {
    /// A loop that has made no pass yet.
    pub fn new() -> (r: Self)
        ensures
            r@ == CadenceState::fresh(VOLUME_POLL_PERIOD as int),
            r@.wf(),
    {
        CaptureLoop { poll: Cadence::new(VOLUME_POLL_PERIOD) }
    }

    /// Checks the invariant that every loop made by `new` has and that
    /// `next_pass` keeps.
    pub fn is_well_formed(&self) -> (ok: bool)
        ensures
            ok == self@.wf(),
    {
        self.poll.is_well_formed()
    }

    /// Plans the next pass.  A loop whose session no longer runs exits
    /// without counting the pass.  Every fifth pass is one on which the
    /// device volume is due, and it is read if the sync is switched on;
    /// the count goes on whether it is or not.
    pub fn next_pass(&mut self, running: bool, sync_master_volume: bool) -> (pass: Pass)
        requires
            old(self)@.wf(),
        ensures
            final(self)@.wf(),
            !running ==> pass == Pass::Exit && final(self)@ == old(self)@,
            running ==> final(self)@ == old(self)@.tick() && pass == (Pass::Wait {
                poll_device_volume: old(self)@.fires() && sync_master_volume,
            }),
    {
        if !running {
            return Pass::Exit;
        }
        let due: bool = self.poll.tick();
        Pass::Wait { poll_device_volume: due && sync_master_volume }
    }
}

/// Decides what follows a wait: buffers are drained only if the source
/// signalled within the timeout.
pub fn after_wait(signalled: bool) -> (r: AfterWait)
    ensures
        r == (if signalled {
            AfterWait::Drain
        } else {
            AfterWait::NextPass
        }),
{
    if signalled {
        AfterWait::Drain
    } else {
        AfterWait::NextPass
    }
}

/// Decides what follows an attempt to acquire a buffer: a failed attempt
/// and a buffer without frames both end the draining of this wake.
pub fn after_acquire(acquired: bool, frames_available: u32) -> (r: AfterAcquire)
    ensures
        r == (if acquired && frames_available > 0 {
            AfterAcquire::Process
        } else {
            AfterAcquire::Done
        }),
{
    if acquired && frames_available > 0 {
        AfterAcquire::Process
    } else {
        AfterAcquire::Done
    }
}

} // verus!
