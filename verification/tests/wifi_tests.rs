use spotlink::wifi::{ConnAction, ConnEvent, ConnState, ConnectivityManager, BACKOFF_MILLIS};

#[test]
fn bring_up_happy_path() {
    let mut mgr = ConnectivityManager::new();
    assert_eq!(mgr.state(), ConnState::Idle);
    assert_eq!(mgr.step(ConnEvent::Start), ConnAction::StartController);
    assert_eq!(mgr.state(), ConnState::Initializing);
    assert_eq!(mgr.step(ConnEvent::ControllerStarted), ConnAction::FetchCredentials);
    assert_eq!(mgr.state(), ConnState::WaitingForCredentials);
    assert_eq!(mgr.step(ConnEvent::CredentialsAvailable), ConnAction::BeginConnect);
    assert_eq!(mgr.state(), ConnState::Connecting);
    assert_eq!(mgr.step(ConnEvent::ConnectSucceeded), ConnAction::Continue);
    assert_eq!(mgr.state(), ConnState::Connected);
}

#[test]
fn failed_attempt_waits_exactly_one_backoff() {
    let mut mgr = ConnectivityManager::new();
    mgr.step(ConnEvent::Start);
    mgr.step(ConnEvent::ControllerStarted);
    mgr.step(ConnEvent::CredentialsAvailable);
    // The attempt fails: one backoff wait is ordered, and nothing else can
    // begin an attempt until it has elapsed.
    assert_eq!(mgr.step(ConnEvent::ConnectFailed), ConnAction::StartBackoff(BACKOFF_MILLIS));
    assert_eq!(mgr.state(), ConnState::Backoff);
    assert_eq!(mgr.step(ConnEvent::ConnectFailed), ConnAction::Continue);
    assert_eq!(mgr.step(ConnEvent::CredentialsAvailable), ConnAction::Continue);
    assert_eq!(mgr.state(), ConnState::Backoff);
    // The backoff elapses: exactly now the next attempt begins.
    assert_eq!(mgr.step(ConnEvent::BackoffElapsed), ConnAction::BeginConnect);
    assert_eq!(mgr.state(), ConnState::Connecting);
    // No duplicate attempt while one is in flight.
    assert_eq!(mgr.step(ConnEvent::BackoffElapsed), ConnAction::Continue);
    assert_eq!(mgr.state(), ConnState::Connecting);
}

#[test]
fn link_drop_reconnects_after_backoff() {
    let mut mgr = ConnectivityManager::new();
    mgr.step(ConnEvent::Start);
    mgr.step(ConnEvent::ControllerStarted);
    mgr.step(ConnEvent::CredentialsAvailable);
    mgr.step(ConnEvent::ConnectSucceeded);
    assert_eq!(mgr.step(ConnEvent::LinkDown), ConnAction::StartBackoff(BACKOFF_MILLIS));
    assert_eq!(mgr.step(ConnEvent::BackoffElapsed), ConnAction::BeginConnect);
    assert_eq!(mgr.state(), ConnState::Connecting);
}

#[test]
fn missing_credentials_park_without_retry() {
    let mut mgr = ConnectivityManager::new();
    mgr.step(ConnEvent::Start);
    mgr.step(ConnEvent::ControllerStarted);
    assert_eq!(mgr.step(ConnEvent::CredentialsMissing), ConnAction::Continue);
    assert_eq!(mgr.state(), ConnState::WaitingForCredentials);
    // Provisioning arrives later: bring-up proceeds.
    assert_eq!(mgr.step(ConnEvent::CredentialsAvailable), ConnAction::BeginConnect);
}

#[test]
fn controller_start_is_issued_once() {
    let mut mgr = ConnectivityManager::new();
    assert_eq!(mgr.step(ConnEvent::Start), ConnAction::StartController);
    // A repeated bring-up request never reissues the controller start.
    assert_eq!(mgr.step(ConnEvent::Start), ConnAction::Continue);
    assert_eq!(mgr.state(), ConnState::Initializing);
}
