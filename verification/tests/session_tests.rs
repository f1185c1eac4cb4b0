use relay_core::session::{step, SessionAction, SessionEvent, SessionState};

fn run_counting(events: &[SessionEvent]) -> (SessionState, usize, usize) {
    let mut state = SessionState::Connecting;
    let mut registers = 0;
    let mut teardowns = 0;
    for e in events {
        let (next, action) = step(state, *e);
        match action {
            SessionAction::Register => registers += 1,
            SessionAction::Teardown => teardowns += 1,
            SessionAction::Stay => {}
        }
        state = next;
    }
    (state, registers, teardowns)
}

#[test]
fn handshake_success_registers() {
    let (s, a) = step(SessionState::Connecting, SessionEvent::HandshakeOk);
    assert_eq!(s, SessionState::Active);
    assert_eq!(a, SessionAction::Register);
}

#[test]
fn handshake_failure_never_registers() {
    let (state, registers, teardowns) =
        run_counting(&[SessionEvent::HandshakeFailed, SessionEvent::CloseFrame]);
    assert_eq!(state, SessionState::Closed);
    assert_eq!(registers, 0);
    assert_eq!(teardowns, 0);
}

#[test]
fn frames_keep_session_active() {
    let (s1, a1) = step(SessionState::Active, SessionEvent::TextFrame);
    assert_eq!(s1, SessionState::Active);
    assert_eq!(a1, SessionAction::Stay);
    let (s2, a2) = step(SessionState::Active, SessionEvent::ControlFrame);
    assert_eq!(s2, SessionState::Active);
    assert_eq!(a2, SessionAction::Stay);
}

#[test]
fn graceful_lifecycle_exactly_once() {
    let (state, registers, teardowns) = run_counting(&[
        SessionEvent::HandshakeOk,
        SessionEvent::TextFrame,
        SessionEvent::ControlFrame,
        SessionEvent::CloseFrame,
        SessionEvent::CleanupDone,
    ]);
    assert_eq!(state, SessionState::Closed);
    assert_eq!(registers, 1);
    assert_eq!(teardowns, 1);
}

#[test]
fn error_lifecycle_exactly_once() {
    for fatal in [SessionEvent::ReadError, SessionEvent::WriteError] {
        let (state, registers, teardowns) = run_counting(&[
            SessionEvent::HandshakeOk,
            SessionEvent::TextFrame,
            fatal,
            // spurious events after the failure change nothing
            SessionEvent::TextFrame,
            SessionEvent::CleanupDone,
            SessionEvent::CleanupDone,
        ]);
        assert_eq!(state, SessionState::Closed);
        assert_eq!(registers, 1);
        assert_eq!(teardowns, 1);
    }
}

#[test]
fn closed_is_terminal() {
    for e in [
        SessionEvent::HandshakeOk,
        SessionEvent::CloseFrame,
        SessionEvent::ReadError,
        SessionEvent::CleanupDone,
    ] {
        let (s, a) = step(SessionState::Closed, e);
        assert_eq!(s, SessionState::Closed);
        assert_eq!(a, SessionAction::Stay);
    }
}
