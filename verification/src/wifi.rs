//! Link bring-up state machine.
//!
//! The manager drives the network link with credentials read from the
//! persistent store and keeps it up indefinitely: a failed attempt or a
//! dropped link waits one fixed backoff interval and reconnects, with no
//! attempt cutoff. Missing credentials are a distinct condition — retrying
//! cannot fix them, so the machine parks in
//! [`ConnState::WaitingForCredentials`] until provisioning. The surrounding
//! task performs the returned [`ConnAction`] — the only part with real I/O —
//! and feeds the resulting [`ConnEvent`] back into [`ConnectivityManager::step`].

use vstd::prelude::*;

verus! {

/// Fixed wait between connection attempts, in milliseconds.
pub const BACKOFF_MILLIS: u64 = 3000;

/// Where link bring-up stands.
#[derive(Debug, Clone, Copy, PartialEq, Eq, Structural)]
pub enum ConnState {
    /// Nothing has happened yet.
    Idle,
    /// The radio controller is being brought up.
    Initializing,
    /// No credentials are provisioned; parked until they arrive.
    WaitingForCredentials,
    /// Exactly one connection attempt is in flight.
    Connecting,
    /// A failed attempt or a dropped link; waiting out the backoff.
    Backoff,
    /// Associated, with an address acquired.
    Connected,
}

/// What the surrounding task reports back to the manager.
#[derive(Debug, Clone, Copy, PartialEq, Eq, Structural)]
pub enum ConnEvent {
    /// Bring-up was requested.
    Start,
    /// The radio controller finished starting.
    ControllerStarted,
    /// Both credential slots were found in the store.
    CredentialsAvailable,
    /// At least one credential slot is empty.
    CredentialsMissing,
    /// Association succeeded and an address was acquired.
    ConnectSucceeded,
    /// The attempt failed: bad credentials, timeout, or association error.
    ConnectFailed,
    /// The established link dropped.
    LinkDown,
    /// The backoff interval ran out.
    BackoffElapsed,
}

/// What the surrounding task must do next.
#[derive(Debug, Clone, Copy, PartialEq, Eq, Structural)]
pub enum ConnAction {
    /// Nothing; keep waiting for the next event.
    Continue,
    /// Start the radio controller.
    StartController,
    /// Read both credential slots from the persistent store, under its
    /// exclusive guard.
    FetchCredentials,
    /// Begin one connection attempt.
    BeginConnect,
    /// Wait the given number of milliseconds, then report
    /// [`ConnEvent::BackoffElapsed`].
    StartBackoff(u64),
}

/// The state after consuming one event. An event that does not belong to
/// the current state changes nothing.
pub open spec fn spec_conn_next(s: ConnState, e: ConnEvent) -> ConnState {
    match (s, e) {
        (ConnState::Idle, ConnEvent::Start) => ConnState::Initializing,
        (ConnState::Initializing, ConnEvent::ControllerStarted) => ConnState::WaitingForCredentials,
        (ConnState::WaitingForCredentials, ConnEvent::CredentialsAvailable) => ConnState::Connecting,
        (ConnState::WaitingForCredentials, ConnEvent::CredentialsMissing) => ConnState::WaitingForCredentials,
        (ConnState::Connecting, ConnEvent::ConnectSucceeded) => ConnState::Connected,
        (ConnState::Connecting, ConnEvent::ConnectFailed) => ConnState::Backoff,
        (ConnState::Connected, ConnEvent::LinkDown) => ConnState::Backoff,
        (ConnState::Backoff, ConnEvent::BackoffElapsed) => ConnState::Connecting,
        _ => s,
    }
}

/// The action issued while consuming one event. `started` guards controller
/// start-up: a second bring-up request skips the redundant start.
pub open spec fn spec_conn_action(s: ConnState, started: bool, e: ConnEvent) -> ConnAction {
    match (s, e) {
        (ConnState::Idle, ConnEvent::Start) => if started {
            ConnAction::Continue
        } else {
            ConnAction::StartController
        },
        (ConnState::Initializing, ConnEvent::ControllerStarted) => ConnAction::FetchCredentials,
        (ConnState::WaitingForCredentials, ConnEvent::CredentialsAvailable) => ConnAction::BeginConnect,
        (ConnState::WaitingForCredentials, ConnEvent::CredentialsMissing) => ConnAction::Continue,
        (ConnState::Connecting, ConnEvent::ConnectSucceeded) => ConnAction::Continue,
        (ConnState::Connecting, ConnEvent::ConnectFailed) => ConnAction::StartBackoff(
            BACKOFF_MILLIS,
        ),
        (ConnState::Connected, ConnEvent::LinkDown) => ConnAction::StartBackoff(BACKOFF_MILLIS),
        (ConnState::Backoff, ConnEvent::BackoffElapsed) => ConnAction::BeginConnect,
        _ => ConnAction::Continue,
    }
}

/// Drives link bring-up; one per device.
pub struct ConnectivityManager {
    state: ConnState,
    started: bool,
}

impl ConnectivityManager {
    /// Where bring-up stands.
    pub closed spec fn spec_state(&self) -> ConnState {
        self.state
    }

    /// Whether the radio controller was ever started.
    pub closed spec fn spec_started(&self) -> bool {
        self.started
    }

    /// A fresh manager: idle, controller not started.
    pub fn new() -> (r: Self)
        ensures
            r.spec_state() == ConnState::Idle,
            !r.spec_started(),
    {
        ConnectivityManager { state: ConnState::Idle, started: false }
    }

    /// The current state, for status reporting.
    pub fn state(&self) -> (r: ConnState)
        ensures
            r == self.spec_state(),
    {
        self.state
    }

    /// Consumes one event: moves to the next state and says what the
    /// surrounding task must do.
    pub fn step(&mut self, event: ConnEvent) -> (a: ConnAction)
        ensures
            final(self).spec_state() == spec_conn_next(old(self).spec_state(), event),
            a == spec_conn_action(old(self).spec_state(), old(self).spec_started(), event),
            final(self).spec_started() == (old(self).spec_started() || (old(self).spec_state()
                is Idle && event is Start)),
    {
        let action = match (self.state, event) {
            (ConnState::Idle, ConnEvent::Start) => {
                self.state = ConnState::Initializing;
                let a = if self.started {
                    ConnAction::Continue
                } else {
                    ConnAction::StartController
                };
                self.started = true;
                a
            },
            (ConnState::Initializing, ConnEvent::ControllerStarted) => {
                self.state = ConnState::WaitingForCredentials;
                ConnAction::FetchCredentials
            },
            (ConnState::WaitingForCredentials, ConnEvent::CredentialsAvailable) => {
                self.state = ConnState::Connecting;
                ConnAction::BeginConnect
            },
            (ConnState::WaitingForCredentials, ConnEvent::CredentialsMissing) => {
                ConnAction::Continue
            },
            (ConnState::Connecting, ConnEvent::ConnectSucceeded) => {
                self.state = ConnState::Connected;
                ConnAction::Continue
            },
            (ConnState::Connecting, ConnEvent::ConnectFailed) => {
                self.state = ConnState::Backoff;
                ConnAction::StartBackoff(BACKOFF_MILLIS)
            },
            (ConnState::Connected, ConnEvent::LinkDown) => {
                self.state = ConnState::Backoff;
                ConnAction::StartBackoff(BACKOFF_MILLIS)
            },
            (ConnState::Backoff, ConnEvent::BackoffElapsed) => {
                self.state = ConnState::Connecting;
                ConnAction::BeginConnect
            },
            _ => ConnAction::Continue,
        };
        action
    }
}

/// The radio controller is started at most once. The start action is only
/// issued while leaving [`ConnState::Idle`] on a manager that has never
/// started it, and no transition leads back into that state.
pub proof fn lemma_start_once()
    ensures
        forall|s: ConnState, started: bool, e: ConnEvent|
            #[trigger] spec_conn_action(s, started, e) == ConnAction::StartController ==> s
                == ConnState::Idle && !started && e == ConnEvent::Start,
        forall|s: ConnState, e: ConnEvent|
            s != ConnState::Idle ==> #[trigger] spec_conn_next(s, e) != ConnState::Idle,
{
}

/// Connectivity retry. A failed attempt puts the machine into exactly one
/// backoff wait, whose end is the only thing that begins the next attempt;
/// and no attempt ever begins while one is in flight or the link is up, so
/// attempts never overlap.
pub proof fn lemma_retry_single_backoff()
    ensures
        spec_conn_next(ConnState::Connecting, ConnEvent::ConnectFailed) == ConnState::Backoff,
        spec_conn_action(ConnState::Connecting, false, ConnEvent::ConnectFailed)
            == ConnAction::StartBackoff(BACKOFF_MILLIS),
        spec_conn_action(ConnState::Connecting, true, ConnEvent::ConnectFailed)
            == ConnAction::StartBackoff(BACKOFF_MILLIS),
        // Waiting out the backoff is the only exit from Backoff.
        forall|e: ConnEvent|
            e != ConnEvent::BackoffElapsed ==> #[trigger] spec_conn_next(ConnState::Backoff, e)
                == ConnState::Backoff,
        forall|e: ConnEvent, started: bool|
            e != ConnEvent::BackoffElapsed ==> #[trigger] spec_conn_action(
                ConnState::Backoff,
                started,
                e,
            ) == ConnAction::Continue,
        spec_conn_next(ConnState::Backoff, ConnEvent::BackoffElapsed) == ConnState::Connecting,
        spec_conn_action(ConnState::Backoff, false, ConnEvent::BackoffElapsed)
            == ConnAction::BeginConnect,
        spec_conn_action(ConnState::Backoff, true, ConnEvent::BackoffElapsed)
            == ConnAction::BeginConnect,
        // An attempt never begins while one is in flight or the link is up.
        forall|s: ConnState, started: bool, e: ConnEvent|
            #[trigger] spec_conn_action(s, started, e) == ConnAction::BeginConnect ==> s
                != ConnState::Connecting && s != ConnState::Connected,
{
}

} // verus!
