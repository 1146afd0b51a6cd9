//! The decisions of a download session.
//!
//! A session drives one device through connect, handshake, history transfer
//! and a clean exit. The transport does the work; this module decides what
//! is done next. The caller carries out an action, reports what came of it
//! as an event, and is told the next action:
//!
//! ```text
//! Disconnected -> Connecting -> Initializing -> SyncingHistory -> Idle -> Exiting -> Finished
//!                                                                  |  ^
//!                                                                  v  |
//!                                                     Reconnecting -> BackingOff
//! ```
//!
//! `Idle` is the connected state in which nothing is in flight but the
//! query for connectivity. A failure to connect at the start or to shake
//! hands ends the session. Once the handshake is done nothing ends it but
//! success: a failed transfer is passed over, and the device is told to
//! leave its fast streaming mode as soon as it is known to be connected,
//! after as many reconnects and as many attempts as that takes.

use vstd::prelude::*;

verus! {

/// Seconds to wait after a reconnect before connectivity is checked again.
pub const RECONNECT_BACKOFF_SECS: u64 = 1;

/// Where a session stands.
#[derive(Clone, Copy, Debug, PartialEq, Eq, Structural)]
pub enum SessionState {
    /// Nothing has been started.
    Disconnected,
    /// The connection is being established and notifications subscribed to.
    Connecting,
    /// The handshake commands are being written.
    Initializing,
    /// The history is being transferred.
    SyncingHistory,
    /// Connected and quiet: connectivity is being queried.
    Idle,
    /// The connection was found lost and is being established again.
    Reconnecting,
    /// The pause between a reconnect and the next query for connectivity.
    BackingOff,
    /// The command to leave the fast streaming mode is being written.
    Exiting,
    /// The session has ended in good order.
    Finished,
    /// The session has ended on an error that is passed to the caller.
    Failed,
}

/// What the caller reports back.
#[derive(Clone, Copy, Debug, PartialEq, Eq, Structural)]
pub enum SessionEvent {
    /// The download command was given.
    Start,
    ConnectSucceeded,
    ConnectFailed,
    InitializeSucceeded,
    InitializeFailed,
    /// The device said that the history is complete.
    SyncCompleted,
    /// No notification came within the caller's patience.
    SyncTimedOut,
    /// The transfer broke off on a transport error.
    SyncFailed,
    /// The answer to the query for connectivity; a query that failed counts
    /// as `false`.
    Connectivity(bool),
    BackoffElapsed,
    WriteSucceeded,
    WriteFailed,
}

/// Why a session failed.
#[derive(Clone, Copy, Debug, PartialEq, Eq, Structural)]
pub enum SessionFailure {
    /// The first connection could not be established.
    Connect,
    /// The handshake could not be written.
    Initialize,
}

/// What the caller is to do next.
#[derive(Clone, Copy, Debug, PartialEq, Eq, Structural)]
pub enum SessionAction {
    /// Establish the connection and subscribe to notifications.
    Connect,
    /// Write the handshake commands.
    Initialize,
    /// Request the history and take in notifications until the transfer
    /// completes, times out or breaks off.
    SyncHistory,
    /// Ask the transport whether the device is connected.
    CheckConnectivity,
    /// Wait for the given number of seconds.
    Backoff(u64),
    /// Write the command that leaves the fast streaming mode.
    SendExit,
    /// Return to the caller: the session is over.
    Finish,
    /// Return the error of the given step to the caller.
    Fail(SessionFailure),
    /// The event does not belong to the state; nothing is to be done.
    Ignore,
}

/// The outcome of one step.
pub struct Transition {
    pub state: SessionState,
    pub connected: bool,
    pub action: SessionAction,
}

/// The transition table: from a state, the last-known connectivity and an
/// event to the next state, the connectivity known then and the action.
pub open spec fn transition(state: SessionState, connected: bool, event: SessionEvent)
    -> Transition {
    match (state, event) {
        (SessionState::Disconnected, SessionEvent::Start) => Transition {
            state: SessionState::Connecting,
            connected,
            action: SessionAction::Connect,
        },
        (SessionState::Connecting, SessionEvent::ConnectSucceeded) => Transition {
            state: SessionState::Initializing,
            connected: true,
            action: SessionAction::Initialize,
        },
        (SessionState::Connecting, SessionEvent::ConnectFailed) => Transition {
            state: SessionState::Failed,
            connected: false,
            action: SessionAction::Fail(SessionFailure::Connect),
        },
        (SessionState::Initializing, SessionEvent::InitializeSucceeded) => Transition {
            state: SessionState::SyncingHistory,
            connected,
            action: SessionAction::SyncHistory,
        },
        (SessionState::Initializing, SessionEvent::InitializeFailed) => Transition {
            state: SessionState::Failed,
            connected,
            action: SessionAction::Fail(SessionFailure::Initialize),
        },
        (SessionState::SyncingHistory, SessionEvent::SyncCompleted)
        | (SessionState::SyncingHistory, SessionEvent::SyncTimedOut)
        | (SessionState::SyncingHistory, SessionEvent::SyncFailed) => Transition {
            state: SessionState::Idle,
            connected,
            action: SessionAction::CheckConnectivity,
        },
        (SessionState::Idle, SessionEvent::Connectivity(true)) => Transition {
            state: SessionState::Exiting,
            connected: true,
            action: SessionAction::SendExit,
        },
        (SessionState::Idle, SessionEvent::Connectivity(false)) => Transition {
            state: SessionState::Reconnecting,
            connected: false,
            action: SessionAction::Connect,
        },
        (SessionState::Reconnecting, SessionEvent::ConnectSucceeded) => Transition {
            state: SessionState::BackingOff,
            connected: true,
            action: SessionAction::Backoff(RECONNECT_BACKOFF_SECS),
        },
        (SessionState::Reconnecting, SessionEvent::ConnectFailed) => Transition {
            state: SessionState::BackingOff,
            connected: false,
            action: SessionAction::Backoff(RECONNECT_BACKOFF_SECS),
        },
        (SessionState::BackingOff, SessionEvent::BackoffElapsed) => Transition {
            state: SessionState::Idle,
            connected,
            action: SessionAction::CheckConnectivity,
        },
        (SessionState::Exiting, SessionEvent::WriteSucceeded) => Transition {
            state: SessionState::Finished,
            connected,
            action: SessionAction::Finish,
        },
        (SessionState::Exiting, SessionEvent::WriteFailed) => Transition {
            state: SessionState::Idle,
            connected,
            action: SessionAction::CheckConnectivity,
        },
        _ => Transition { state, connected, action: SessionAction::Ignore },
    }
}

/// A download session: its state and the connectivity last known.
#[derive(Clone, Copy, Debug)]
pub struct DeviceSession {
    state: SessionState,
    connected: bool,
}

impl DeviceSession {
    /// Where the session stands.
    pub closed spec fn spec_state(&self) -> SessionState {
        self.state
    }

    /// The connectivity last known.
    pub closed spec fn spec_connected(&self) -> bool {
        self.connected
    }

    /// A session on which nothing has been started.
    pub fn new() -> (session: DeviceSession)
        ensures
            session.spec_state() == SessionState::Disconnected,
            !session.spec_connected(),
    {
        DeviceSession { state: SessionState::Disconnected, connected: false }
    }

    /// Where the session stands.
    #[verifier::when_used_as_spec(spec_state)]
    pub fn state(&self) -> (state: SessionState)
        ensures
            state == self.spec_state(),
    {
        self.state
    }

    /// The connectivity last known, without asking the transport.
    #[verifier::when_used_as_spec(spec_connected)]
    pub fn is_connected(&self) -> (connected: bool)
        ensures
            connected == self.spec_connected(),
    {
        self.connected
    }

    /// Whether the session is over.
    pub fn is_over(&self) -> (over: bool)
        ensures
            over == (self.spec_state() == SessionState::Finished || self.spec_state()
                == SessionState::Failed),
    {
        match self.state {
            SessionState::Finished => true,
            SessionState::Failed => true,
            _ => false,
        }
    }

    /// Takes in an event and returns what is to be done next.
    ///
    /// State, connectivity and action are those of [`transition`]. An event
    /// that does not belong to the state changes nothing and is answered
    /// with [`SessionAction::Ignore`].
    pub fn step(&mut self, event: SessionEvent) -> (action: SessionAction)
        ensures
            final(self).spec_state() == transition(
                old(self).spec_state(),
                old(self).spec_connected(),
                event,
            ).state,
            final(self).spec_connected() == transition(
                old(self).spec_state(),
                old(self).spec_connected(),
                event,
            ).connected,
            action == transition(old(self).spec_state(), old(self).spec_connected(), event).action,
    {
        let (state, connected, action) = match (self.state, event) {
            (SessionState::Disconnected, SessionEvent::Start) => (
                SessionState::Connecting,
                self.connected,
                SessionAction::Connect,
            ),
            (SessionState::Connecting, SessionEvent::ConnectSucceeded) => (
                SessionState::Initializing,
                true,
                SessionAction::Initialize,
            ),
            (SessionState::Connecting, SessionEvent::ConnectFailed) => (
                SessionState::Failed,
                false,
                SessionAction::Fail(SessionFailure::Connect),
            ),
            (SessionState::Initializing, SessionEvent::InitializeSucceeded) => (
                SessionState::SyncingHistory,
                self.connected,
                SessionAction::SyncHistory,
            ),
            (SessionState::Initializing, SessionEvent::InitializeFailed) => (
                SessionState::Failed,
                self.connected,
                SessionAction::Fail(SessionFailure::Initialize),
            ),
            (SessionState::SyncingHistory, SessionEvent::SyncCompleted) => (
                SessionState::Idle,
                self.connected,
                SessionAction::CheckConnectivity,
            ),
            (SessionState::SyncingHistory, SessionEvent::SyncTimedOut) => (
                SessionState::Idle,
                self.connected,
                SessionAction::CheckConnectivity,
            ),
            (SessionState::SyncingHistory, SessionEvent::SyncFailed) => (
                SessionState::Idle,
                self.connected,
                SessionAction::CheckConnectivity,
            ),
            (SessionState::Idle, SessionEvent::Connectivity(true)) => (
                SessionState::Exiting,
                true,
                SessionAction::SendExit,
            ),
            (SessionState::Idle, SessionEvent::Connectivity(false)) => (
                SessionState::Reconnecting,
                false,
                SessionAction::Connect,
            ),
            (SessionState::Reconnecting, SessionEvent::ConnectSucceeded) => (
                SessionState::BackingOff,
                true,
                SessionAction::Backoff(RECONNECT_BACKOFF_SECS),
            ),
            (SessionState::Reconnecting, SessionEvent::ConnectFailed) => (
                SessionState::BackingOff,
                false,
                SessionAction::Backoff(RECONNECT_BACKOFF_SECS),
            ),
            (SessionState::BackingOff, SessionEvent::BackoffElapsed) => (
                SessionState::Idle,
                self.connected,
                SessionAction::CheckConnectivity,
            ),
            (SessionState::Exiting, SessionEvent::WriteSucceeded) => (
                SessionState::Finished,
                self.connected,
                SessionAction::Finish,
            ),
            (SessionState::Exiting, SessionEvent::WriteFailed) => (
                SessionState::Idle,
                self.connected,
                SessionAction::CheckConnectivity,
            ),
            _ => (self.state, self.connected, SessionAction::Ignore),
        };
        self.state = state;
        self.connected = connected;
        action
    }
}

/// The state that a run of events leads to.
pub open spec fn run(state: SessionState, connected: bool, events: Seq<SessionEvent>)
    -> Transition
    decreases events.len(),
{
    if events.len() == 0 {
        Transition { state, connected, action: SessionAction::Ignore }
    } else {
        let before = run(state, connected, events.drop_last());
        transition(before.state, before.connected, events.last())
    }
}

/// One round of the reconnect loop as the caller reports it: the device is
/// found disconnected, the connection is established again, the pause
/// elapses.
pub open spec fn reconnect_round() -> Seq<SessionEvent> {
    seq![
        SessionEvent::Connectivity(false),
        SessionEvent::ConnectSucceeded,
        SessionEvent::BackoffElapsed,
    ]
}

/// `rounds` rounds of the reconnect loop, one after the other.
pub open spec fn reconnect_rounds(rounds: nat) -> Seq<SessionEvent>
    decreases rounds,
{
    if rounds == 0 {
        Seq::empty()
    } else {
        reconnect_rounds((rounds - 1) as nat) + reconnect_round()
    }
}

/// A run can be cut anywhere: running two sequences of events one after
/// the other is running them as one.
pub proof fn lemma_run_concat(
    state: SessionState,
    connected: bool,
    first: Seq<SessionEvent>,
    second: Seq<SessionEvent>,
)
    requires
        second.len() > 0,
    ensures
        run(state, connected, first + second) == run(
            run(state, connected, first).state,
            run(state, connected, first).connected,
            second,
        ),
    decreases second.len(),
{
    let whole = first + second;
    assert(whole.drop_last() =~= first + second.drop_last());
    let mid = run(state, connected, first);
    if second.len() == 1 {
        assert(run(mid.state, mid.connected, second.drop_last()).state == mid.state);
    } else {
        lemma_run_concat(state, connected, first, second.drop_last());
    }
}

/// Running one more event is one more transition.
pub proof fn lemma_run_push(
    state: SessionState,
    connected: bool,
    events: Seq<SessionEvent>,
    event: SessionEvent,
)
    ensures
        run(state, connected, events.push(event)) == transition(
            run(state, connected, events).state,
            run(state, connected, events).connected,
            event,
        ),
{
    assert(events.push(event).drop_last() =~= events);
}

/// The history is requested only after the handshake has succeeded.
pub proof fn lemma_sync_follows_handshake(
    state: SessionState,
    connected: bool,
    event: SessionEvent,
)
    ensures
        transition(state, connected, event).action == SessionAction::SyncHistory <==> state
            == SessionState::Initializing && event == SessionEvent::InitializeSucceeded,
{
}

/// The exit command is written only once connectivity has been confirmed.
pub proof fn lemma_exit_needs_connectivity(
    state: SessionState,
    connected: bool,
    event: SessionEvent,
)
    ensures
        transition(state, connected, event).action == SessionAction::SendExit <==> state
            == SessionState::Idle && event == SessionEvent::Connectivity(true),
        transition(state, connected, event).action == SessionAction::SendExit ==> transition(
            state,
            connected,
            event,
        ).connected,
{
}

/// However the history transfer ends, the session goes on to confirm
/// connectivity, so that the exit command is still written.
pub proof fn lemma_exit_follows_any_sync(connected: bool, event: SessionEvent)
    requires
        event == SessionEvent::SyncCompleted || event == SessionEvent::SyncTimedOut || event
            == SessionEvent::SyncFailed,
    ensures
        transition(SessionState::SyncingHistory, connected, event).state == SessionState::Idle,
        transition(SessionState::SyncingHistory, connected, event).action
            == SessionAction::CheckConnectivity,
{
}

/// The session ends in good order only when the exit command was written.
pub proof fn lemma_finish_needs_exit(state: SessionState, connected: bool, event: SessionEvent)
    ensures
        transition(state, connected, event).action == SessionAction::Finish <==> state
            == SessionState::Exiting && event == SessionEvent::WriteSucceeded,
        state != SessionState::Finished && transition(state, connected, event).state
            == SessionState::Finished ==> state == SessionState::Exiting && event
            == SessionEvent::WriteSucceeded,
{
}

/// A session that is over stays as it is, whatever is reported.
pub proof fn lemma_over_is_final(state: SessionState, connected: bool, event: SessionEvent)
    requires
        state == SessionState::Finished || state == SessionState::Failed,
    ensures
        transition(state, connected, event).state == state,
        transition(state, connected, event).connected == connected,
        transition(state, connected, event).action == SessionAction::Ignore,
{
}

/// There is no cap on reconnects: after any number of rounds in which the
/// device is found disconnected and connected again, the session is back at
/// querying connectivity, and writes the exit command as soon as the answer
/// is yes.
pub proof fn lemma_reconnect_has_no_cap(connected: bool, rounds: nat)
    ensures
        run(SessionState::Idle, connected, reconnect_rounds(rounds)).state == SessionState::Idle,
        rounds > 0 ==> run(SessionState::Idle, connected, reconnect_rounds(rounds)).action
            == SessionAction::CheckConnectivity,
        run(
            SessionState::Idle,
            connected,
            reconnect_rounds(rounds).push(SessionEvent::Connectivity(true)),
        ).action == SessionAction::SendExit,
    decreases rounds,
{
    let idle = SessionState::Idle;
    if rounds > 0 {
        let earlier = reconnect_rounds((rounds - 1) as nat);
        lemma_reconnect_has_no_cap(connected, (rounds - 1) as nat);
        let lost = earlier.push(SessionEvent::Connectivity(false));
        let again = lost.push(SessionEvent::ConnectSucceeded);
        let waited = again.push(SessionEvent::BackoffElapsed);
        lemma_run_push(idle, connected, earlier, SessionEvent::Connectivity(false));
        lemma_run_push(idle, connected, lost, SessionEvent::ConnectSucceeded);
        lemma_run_push(idle, connected, again, SessionEvent::BackoffElapsed);
        assert(waited =~= earlier + reconnect_round());
    }
    lemma_run_push(idle, connected, reconnect_rounds(rounds), SessionEvent::Connectivity(true));
}

/// Whether the handshake lies behind the session in `state` and the exit
/// command is still to be written.
pub open spec fn past_handshake(state: SessionState) -> bool {
    ||| state == SessionState::SyncingHistory
    ||| state == SessionState::Idle
    ||| state == SessionState::Reconnecting
    ||| state == SessionState::BackingOff
    ||| state == SessionState::Exiting
}

/// Once the handshake is done the session cannot fail: whatever is
/// reported, it stays on the way to the exit command or ends in good order.
pub proof fn lemma_no_failure_past_handshake(
    state: SessionState,
    connected: bool,
    event: SessionEvent,
)
    requires
        past_handshake(state),
    ensures
        past_handshake(transition(state, connected, event).state) || transition(
            state,
            connected,
            event,
        ).state == SessionState::Finished,
        !(transition(state, connected, event).action is Fail),
{
}

/// A failed attempt to connect again or to write the exit command is
/// followed by another: the session goes back to confirming connectivity.
pub proof fn lemma_exit_is_retried(connected: bool)
    ensures
        transition(SessionState::Exiting, connected, SessionEvent::WriteFailed).state
            == SessionState::Idle,
        transition(SessionState::Exiting, connected, SessionEvent::WriteFailed).action
            == SessionAction::CheckConnectivity,
        transition(SessionState::Reconnecting, connected, SessionEvent::ConnectFailed).action
            == SessionAction::Backoff(RECONNECT_BACKOFF_SECS),
        transition(SessionState::BackingOff, connected, SessionEvent::BackoffElapsed).action
            == SessionAction::CheckConnectivity,
{
}

} // verus!
