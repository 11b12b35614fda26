//! The state machine of a session.
use phonebridge::session::state::{
    derive_control_state, derive_mirror_state, ControlState, MirrorState, SessionEvent,
    SessionStateMachine, SessionStateName,
};

fn run_sequence(
    machine: &mut SessionStateMachine,
    events: &[SessionEvent],
) -> Vec<SessionStateName> {
    events
        .iter()
        .map(|e| machine.transition(*e).expect("合法转移应成功"))
        .collect()
}

#[test]
fn happy_path_full_cycle() {
    let mut m = SessionStateMachine::new();
    let states = run_sequence(
        &mut m,
        &[
            SessionEvent::UserConnect,       // Checking
            SessionEvent::ChecksPassed,      // Ready
            SessionEvent::MirrorStarted,     // Mirroring
            SessionEvent::FirstFrame,        // MirroringConnected
            SessionEvent::UserEnableControl, // ControlPairing
            SessionEvent::ControlPaired,     // ControlReady
            SessionEvent::UserStop,          // Stopping
            SessionEvent::CleanupDone,       // Idle
        ],
    );
    assert_eq!(
        states,
        vec![
            SessionStateName::Checking,
            SessionStateName::Ready,
            SessionStateName::Mirroring,
            SessionStateName::MirroringConnected,
            SessionStateName::ControlPairing,
            SessionStateName::ControlReady,
            SessionStateName::Stopping,
            SessionStateName::Idle,
        ]
    );
    assert_eq!(m.state(), SessionStateName::Idle);
}

#[test]
fn control_cancel_returns_to_mirroring() {
    let mut m = SessionStateMachine::new();
    run_sequence(
        &mut m,
        &[
            SessionEvent::UserConnect,
            SessionEvent::ChecksPassed,
            SessionEvent::MirrorStarted,
            SessionEvent::FirstFrame,
            SessionEvent::UserEnableControl,
        ],
    );
    assert_eq!(m.state(), SessionStateName::ControlPairing);
    m.transition(SessionEvent::UserCancelControl).unwrap();
    assert_eq!(m.state(), SessionStateName::MirroringConnected);
}

#[test]
fn ble_disconnect_keeps_mirror() {
    let mut m = SessionStateMachine::new();
    run_sequence(
        &mut m,
        &[
            SessionEvent::UserConnect,
            SessionEvent::ChecksPassed,
            SessionEvent::MirrorStarted,
            SessionEvent::FirstFrame,
            SessionEvent::UserEnableControl,
            SessionEvent::ControlPaired,
        ],
    );
    m.transition(SessionEvent::BleDisconnected).unwrap();
    assert_eq!(m.state(), SessionStateName::MirroringConnected);
}

#[test]
fn reconnect_cycle() {
    let mut m = SessionStateMachine::new();
    run_sequence(
        &mut m,
        &[
            SessionEvent::UserConnect,
            SessionEvent::ChecksPassed,
            SessionEvent::MirrorStarted,
            SessionEvent::FirstFrame,
        ],
    );
    m.transition(SessionEvent::LinkLost).unwrap();
    assert_eq!(m.state(), SessionStateName::Reconnecting);
    m.transition(SessionEvent::ReconnectOk).unwrap();
    assert_eq!(m.state(), SessionStateName::MirroringConnected);

    m.transition(SessionEvent::LinkLost).unwrap();
    m.transition(SessionEvent::ReconnectTimeout).unwrap();
    assert_eq!(m.state(), SessionStateName::Failed);
    m.transition(SessionEvent::UserDismissError).unwrap();
    assert_eq!(m.state(), SessionStateName::Idle);
}

#[test]
fn check_failure_goes_failed() {
    let mut m = SessionStateMachine::new();
    m.transition(SessionEvent::UserConnect).unwrap();
    m.transition(SessionEvent::ChecksFailed).unwrap();
    assert_eq!(m.state(), SessionStateName::Failed);
}

#[test]
fn mirror_crash_goes_failed() {
    let mut m = SessionStateMachine::new();
    run_sequence(
        &mut m,
        &[
            SessionEvent::UserConnect,
            SessionEvent::ChecksPassed,
            SessionEvent::MirrorStarted,
        ],
    );
    m.transition(SessionEvent::MirrorFailed).unwrap();
    assert_eq!(m.state(), SessionStateName::Failed);
}

#[test]
fn user_stop_is_allowed_before_first_frame() {
    let mut m = SessionStateMachine::new();
    run_sequence(
        &mut m,
        &[
            SessionEvent::UserConnect,
            SessionEvent::ChecksPassed,
            SessionEvent::MirrorStarted,
        ],
    );
    assert_eq!(m.state(), SessionStateName::Mirroring);
    m.transition(SessionEvent::UserStop).unwrap();
    assert_eq!(m.state(), SessionStateName::Stopping);
}

#[test]
fn airplay_connection_can_precede_first_frame() {
    let mut m = SessionStateMachine::new();
    run_sequence(
        &mut m,
        &[
            SessionEvent::UserConnect,
            SessionEvent::ChecksPassed,
            SessionEvent::MirrorStarted,
            SessionEvent::MirrorConnected,
        ],
    );
    assert_eq!(m.state(), SessionStateName::MirroringConnected);
    m.transition(SessionEvent::FirstFrame).unwrap();
    assert_eq!(m.state(), SessionStateName::MirroringConnected);
}

#[test]
fn invalid_transitions_are_rejected() {
    let mut m = SessionStateMachine::new();
    // Idle 直接 FirstFrame 非法
    let err = m.transition(SessionEvent::FirstFrame).unwrap_err();
    assert_eq!(err.from, SessionStateName::Idle);
    assert_eq!(m.state(), SessionStateName::Idle);

    // Checking 可以取消启动中的会话
    m.transition(SessionEvent::UserConnect).unwrap();
    m.transition(SessionEvent::UserStop).unwrap();
    assert_eq!(m.state(), SessionStateName::Stopping);
    m.transition(SessionEvent::CleanupDone).unwrap();
    assert_eq!(m.state(), SessionStateName::Idle);

    // Ready 不能直接 FirstFrame
    m.transition(SessionEvent::UserConnect).unwrap();
    m.transition(SessionEvent::ChecksPassed).unwrap();
    assert!(m.transition(SessionEvent::FirstFrame).is_err());
    assert_eq!(m.state(), SessionStateName::Ready);
}

#[test]
fn derived_substates() {
    assert_eq!(
        derive_control_state(SessionStateName::ControlPairing),
        ControlState::WaitingPairing
    );
    assert_eq!(
        derive_control_state(SessionStateName::ControlReady),
        ControlState::Connected
    );
    assert_eq!(
        derive_control_state(SessionStateName::Idle),
        ControlState::Disabled
    );

    assert_eq!(
        derive_mirror_state(SessionStateName::Mirroring),
        MirrorState::Connecting
    );
    assert_eq!(
        derive_mirror_state(SessionStateName::MirroringConnected),
        MirrorState::Streaming
    );
    assert_eq!(
        derive_mirror_state(SessionStateName::Reconnecting),
        MirrorState::Reconnecting
    );
    assert_eq!(
        derive_mirror_state(SessionStateName::Stopping),
        MirrorState::Stopped
    );
    assert_eq!(
        derive_mirror_state(SessionStateName::Failed),
        MirrorState::Failed
    );
}
