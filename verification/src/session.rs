//! Per-connection session lifecycle.
//!
//! A session moves through `Connecting -> Active -> Closing -> Closed`.
//! `step` is the whole transition table: it decides, for a state and an
//! observed event, the next state and the bookkeeping action the caller must
//! perform (register on entering `Active`, tear down on leaving it).  The
//! driver that awaits frames and runs the two loops lives outside the
//! library; it feeds events in and performs the actions.

use vstd::prelude::*;

verus! {

/// Lifecycle phase of one connection's session.
#[derive(Clone, Copy, Debug, PartialEq, Eq, Structural)]
pub enum SessionState {
    Connecting,
    Active,
    Closing,
    Closed,
}

/// An observation the session driver hands to the state machine.
#[derive(Clone, Copy, Debug, PartialEq, Eq, Structural)]
pub enum SessionEvent {
    /// Transport handshake succeeded.
    HandshakeOk,
    /// Transport handshake failed; the session never becomes active.
    HandshakeFailed,
    /// The peer sent an explicit close frame.
    CloseFrame,
    /// Reading from the connection failed.
    ReadError,
    /// Writing to the connection failed.
    WriteError,
    /// An application text frame arrived (routed separately; not fatal).
    TextFrame,
    /// A ping, pong or binary frame arrived; carries no application meaning.
    ControlFrame,
    /// Both cleanup steps (deregister, leave all rooms) have run.
    CleanupDone,
}

/// Bookkeeping the driver must perform after a transition.
#[derive(Clone, Copy, Debug, PartialEq, Eq, Structural)]
pub enum SessionAction {
    /// Register the connection, subscribe a broadcast cursor, send the
    /// welcome notification.
    Register,
    /// Deregister the connection and remove it from every room.
    Teardown,
    /// Nothing to do.
    Stay,
}

/// The transition table of the session lifecycle.
pub open spec fn spec_step(s: SessionState, e: SessionEvent) -> (SessionState, SessionAction) {
    match s {
        SessionState::Connecting => match e {
            SessionEvent::HandshakeOk => (SessionState::Active, SessionAction::Register),
            SessionEvent::HandshakeFailed => (SessionState::Closed, SessionAction::Stay),
            _ => (SessionState::Connecting, SessionAction::Stay),
        },
        SessionState::Active => match e {
            SessionEvent::CloseFrame
            | SessionEvent::ReadError
            | SessionEvent::WriteError => (SessionState::Closing, SessionAction::Teardown),
            _ => (SessionState::Active, SessionAction::Stay),
        },
        SessionState::Closing => match e {
            SessionEvent::CleanupDone => (SessionState::Closed, SessionAction::Stay),
            _ => (SessionState::Closing, SessionAction::Stay),
        },
        SessionState::Closed => (SessionState::Closed, SessionAction::Stay),
    }
}

/// One step of the session lifecycle: next state and required action.
pub fn step(s: SessionState, e: SessionEvent) -> (r: (SessionState, SessionAction))
    ensures
        r == spec_step(s, e),
{
    match s {
        SessionState::Connecting => match e {
            SessionEvent::HandshakeOk => (SessionState::Active, SessionAction::Register),
            SessionEvent::HandshakeFailed => (SessionState::Closed, SessionAction::Stay),
            _ => (SessionState::Connecting, SessionAction::Stay),
        },
        SessionState::Active => match e {
            SessionEvent::CloseFrame
            | SessionEvent::ReadError
            | SessionEvent::WriteError => (SessionState::Closing, SessionAction::Teardown),
            _ => (SessionState::Active, SessionAction::Stay),
        },
        SessionState::Closing => match e {
            SessionEvent::CleanupDone => (SessionState::Closed, SessionAction::Stay),
            _ => (SessionState::Closing, SessionAction::Stay),
        },
        SessionState::Closed => (SessionState::Closed, SessionAction::Stay),
    }
}

/// The state after running every event of `evs` from `s`, in order.
pub open spec fn run(s: SessionState, evs: Seq<SessionEvent>) -> SessionState
    decreases evs.len(),
{
    if evs.len() == 0 {
        s
    } else {
        run(spec_step(s, evs[0]).0, evs.drop_first())
    }
}

/// How many steps of the run from `s` through `evs` emit action `a`.
pub open spec fn count_action(s: SessionState, evs: Seq<SessionEvent>, a: SessionAction) -> nat
    decreases evs.len(),
{
    if evs.len() == 0 {
        0
    } else {
        (if spec_step(s, evs[0]).1 == a {
            1nat
        } else {
            0nat
        }) + count_action(spec_step(s, evs[0]).0, evs.drop_first(), a)
    }
}

/// From `Closed` every run stays in `Closed` and emits no action.
proof fn lemma_closed_counts(evs: Seq<SessionEvent>)
    ensures
        run(SessionState::Closed, evs) == SessionState::Closed,
        count_action(SessionState::Closed, evs, SessionAction::Register) == 0,
        count_action(SessionState::Closed, evs, SessionAction::Teardown) == 0,
    decreases evs.len(),
{
    if evs.len() > 0 {
        lemma_closed_counts(evs.drop_first());
    }
}

/// From `Closing` a run emits no further register or teardown action and
/// ends in `Closing` or `Closed`.
proof fn lemma_closing_counts(evs: Seq<SessionEvent>)
    ensures
        run(SessionState::Closing, evs) == SessionState::Closing || run(
            SessionState::Closing,
            evs,
        ) == SessionState::Closed,
        count_action(SessionState::Closing, evs, SessionAction::Register) == 0,
        count_action(SessionState::Closing, evs, SessionAction::Teardown) == 0,
    decreases evs.len(),
{
    if evs.len() > 0 {
        if spec_step(SessionState::Closing, evs[0]).0 == SessionState::Closed {
            lemma_closed_counts(evs.drop_first());
        } else {
            lemma_closing_counts(evs.drop_first());
        }
    }
}

/// From `Active` a run never registers again, and tears down exactly once
/// exactly when it leaves `Active`.
proof fn lemma_active_counts(evs: Seq<SessionEvent>)
    ensures
        count_action(SessionState::Active, evs, SessionAction::Register) == 0,
        run(SessionState::Active, evs) == SessionState::Active ==> count_action(
            SessionState::Active,
            evs,
            SessionAction::Teardown,
        ) == 0,
        run(SessionState::Active, evs) != SessionState::Active ==> (run(SessionState::Active, evs)
            == SessionState::Closing || run(SessionState::Active, evs) == SessionState::Closed)
            && count_action(SessionState::Active, evs, SessionAction::Teardown) == 1,
    decreases evs.len(),
{
    if evs.len() > 0 {
        if spec_step(SessionState::Active, evs[0]).0 == SessionState::Closing {
            lemma_closing_counts(evs.drop_first());
        } else {
            lemma_active_counts(evs.drop_first());
        }
    }
}

/// Registration happens exactly once and teardown exactly once over any
/// complete lifecycle: a run that starts with a successful handshake and ends
/// in `Closed` emits exactly one `Register` and exactly one `Teardown`,
/// whatever frames, errors or spurious events came in between.
pub proof fn lemma_lifecycle_exactly_once(evs: Seq<SessionEvent>)
    requires
        evs.len() > 0,
        evs[0] == SessionEvent::HandshakeOk,
        run(SessionState::Connecting, evs) == SessionState::Closed,
    ensures
        count_action(SessionState::Connecting, evs, SessionAction::Register) == 1,
        count_action(SessionState::Connecting, evs, SessionAction::Teardown) == 1,
{
    lemma_active_counts(evs.drop_first());
}

/// A session that never completed its handshake registers nothing and has
/// nothing to tear down.
pub proof fn lemma_failed_handshake_no_registration(evs: Seq<SessionEvent>)
    requires
        evs.len() > 0,
        evs[0] == SessionEvent::HandshakeFailed,
    ensures
        count_action(SessionState::Connecting, evs, SessionAction::Register) == 0,
        count_action(SessionState::Connecting, evs, SessionAction::Teardown) == 0,
        run(SessionState::Connecting, evs) == SessionState::Closed,
{
    lemma_closed_counts(evs.drop_first());
}

} // verus!
