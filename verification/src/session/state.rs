//! The life of a session, and what it admits at each stage.

use vstd::prelude::*;
use crate::errors::{Error, ErrorView};
use crate::profile::{Capacity, LOCAL_TUNNEL, REMOTE_TUNNEL, TERMINAL};

verus! {

/// The stages of a session.
#[derive(Clone, Copy, Debug, PartialEq, Eq, Structural)]
pub enum SessionState {
    /// The transport, a socket or a tunnel of another session, is being
    /// established.
    Connecting,
    /// The transport stands; handshake and login are under way.
    Authenticating,
    /// The session is logged in and opens channels.
    Ready,
    /// The session was closed, or never got as far as `Ready`.
    Closed,
    /// The connection was lost under a session that was `Ready` or on its
    /// way there. The session is still held by its guards, and of no use.
    Lost,
}

/// What happens to a session.
#[derive(Clone, Copy, Debug, PartialEq, Eq, Structural)]
pub enum SessionEvent {
    TransportEstablished,
    AuthSucceeded,
    AuthFailed,
    /// The liveness check has failed, or a channel has met an I/O error.
    ConnectionLost,
    /// The last guard is gone.
    Close,
}

/// The operations of a session.
#[derive(Clone, Copy, Debug, PartialEq, Eq, Structural)]
pub enum Operation {
    OpenPty,
    LocalTunnel,
    RemoteTunnel,
}

impl SessionState {
    /// The stage after `event`.
    ///
    /// A session moves forward one stage at a time, from `Connecting` over
    /// `Authenticating` to `Ready`. A refused login closes it. A lost
    /// connection makes any session that is not closed `Lost`; closing
    /// makes any session `Closed`, for good. An event that has no meaning
    /// at a stage leaves the stage as it is.
    pub open spec fn spec_on(self, event: SessionEvent) -> SessionState {
        match (self, event) {
            (SessionState::Closed, _) => SessionState::Closed,
            (_, SessionEvent::Close) => SessionState::Closed,
            (_, SessionEvent::ConnectionLost) => SessionState::Lost,
            (SessionState::Connecting, SessionEvent::TransportEstablished) => {
                SessionState::Authenticating
            },
            (SessionState::Authenticating, SessionEvent::AuthSucceeded) => SessionState::Ready,
            (SessionState::Authenticating, SessionEvent::AuthFailed) => SessionState::Closed,
            (s, _) => s,
        }
    }

    /// The stage after `event`.
    #[verifier::when_used_as_spec(spec_on)]
    pub fn on(self, event: SessionEvent) -> (r: SessionState)
        ensures
            r == self.spec_on(event),
    {
        match (self, event) {
            (SessionState::Closed, _) => SessionState::Closed,
            (_, SessionEvent::Close) => SessionState::Closed,
            (_, SessionEvent::ConnectionLost) => SessionState::Lost,
            (SessionState::Connecting, SessionEvent::TransportEstablished) => {
                SessionState::Authenticating
            },
            (SessionState::Authenticating, SessionEvent::AuthSucceeded) => SessionState::Ready,
            (SessionState::Authenticating, SessionEvent::AuthFailed) => SessionState::Closed,
            (s, _) => s,
        }
    }

    /// Whether the connection of the session is gone.
    pub open spec fn spec_is_closed(self) -> bool {
        self == SessionState::Closed || self == SessionState::Lost
    }

    /// Whether the connection of the session is gone: the liveness check.
    #[verifier::when_used_as_spec(spec_is_closed)]
    pub fn is_closed(self) -> (r: bool)
        ensures
            r == self.spec_is_closed(),
    {
        match self {
            SessionState::Closed | SessionState::Lost => true,
            _ => false,
        }
    }

    /// The stage after all of `events`, one after the other.
    pub open spec fn after(self, events: Seq<SessionEvent>) -> SessionState
        decreases events.len(),
    {
        if events.len() == 0 {
            self
        } else {
            self.after(events.drop_last()).spec_on(events.last())
        }
    }
}

impl Operation {
    /// The bit of the capacity that allows the operation.
    pub open spec fn spec_needs(self) -> u32 {
        match self {
            Operation::OpenPty => TERMINAL,
            Operation::LocalTunnel => LOCAL_TUNNEL,
            Operation::RemoteTunnel => REMOTE_TUNNEL,
        }
    }

    /// The capacity that allows the operation.
    pub fn needs(self) -> (r: Capacity)
        ensures
            r.spec_bits() == self.spec_needs(),
    {
        match self {
            Operation::OpenPty => Capacity::terminal(),
            Operation::LocalTunnel => Capacity::local_tunnel(),
            Operation::RemoteTunnel => Capacity::remote_tunnel(),
        }
    }
}

/// Whether `capacity` allows `operation`.
pub open spec fn allowed(capacity: Capacity, operation: Operation) -> bool {
    capacity.spec_bits() & operation.spec_needs() == operation.spec_needs()
}

/// The name of an operation, for messages.
pub open spec fn operation_name(operation: Operation) -> Seq<char> {
    match operation {
        Operation::OpenPty => "open_pty"@,
        Operation::LocalTunnel => "local_tunnel"@,
        Operation::RemoteTunnel => "remote_tunnel"@,
    }
}

/// Whether a session at stage `state`, of a protocol that allows
/// `capacity`, takes up `operation`.
///
/// An operation that the protocol does not allow fails with `NotSupported`
/// and the operation's name, at any stage. An operation that it allows is
/// taken up by a session that is `Ready`, and fails with `SshError` at any
/// other stage.
pub fn accepts(state: SessionState, capacity: Capacity, operation: Operation) -> (r: Result<
    (),
    Error,
>)
    ensures
        match r {
            Ok(()) => allowed(capacity, operation) && state == SessionState::Ready,
            Err(e) => if !allowed(capacity, operation) {
                e@ == ErrorView::NotSupported(operation_name(operation))
            } else {
                state != SessionState::Ready && e@ == ErrorView::SshError("session is not ready"@)
            },
        },
{
    if !capacity.contains(operation.needs()) {
        let name = match operation {
            Operation::OpenPty => "open_pty",
            Operation::LocalTunnel => "local_tunnel",
            Operation::RemoteTunnel => "remote_tunnel",
        };
        return Err(Error::NotSupported(String::from_str(name)));
    }
    match state {
        SessionState::Ready => Ok(()),
        _ => Err(Error::SshError(String::from_str("session is not ready"))),
    }
}

/// What the events so far have to be like for a session that started
/// `Connecting` to be at its stage: it has met no close and no loss of
/// connection unless it is `Closed` or `Lost`, its transport was established
/// unless it is still `Connecting`, and its login has succeeded after that
/// if it is `Ready`.
pub open spec fn earned(stage: SessionState, events: Seq<SessionEvent>) -> bool {
    &&& !stage.spec_is_closed() ==> forall|i: int|
        0 <= i < events.len() ==> #[trigger] events[i] != SessionEvent::Close && events[i]
            != SessionEvent::ConnectionLost
    &&& stage == SessionState::Connecting ==> forall|i: int|
        0 <= i < events.len() ==> #[trigger] events[i] != SessionEvent::TransportEstablished
    &&& stage == SessionState::Authenticating ==> exists|i: int|
        0 <= i < events.len() && #[trigger] events[i] == SessionEvent::TransportEstablished
    &&& stage == SessionState::Ready ==> exists|i: int, j: int|
        0 <= i < j < events.len() && #[trigger] events[i] == SessionEvent::TransportEstablished
            && #[trigger] events[j] == SessionEvent::AuthSucceeded
}

/// A session is at no stage that it has not earned: it opens channels only
/// after its transport was established and its login has succeeded, in this
/// order, and not once it was closed or has lost its connection.
pub proof fn law_stage_is_earned(events: Seq<SessionEvent>)
    ensures
        earned(SessionState::Connecting.after(events), events),
    decreases events.len(),
{
    if events.len() > 0 {
        let before = events.drop_last();
        let stage = SessionState::Connecting.after(before);
        let next = SessionState::Connecting.after(events);
        law_stage_is_earned(before);
        assert forall|i: int| 0 <= i < before.len() implies before[i] == events[i] by {}
        if !next.spec_is_closed() {
            assert forall|i: int| 0 <= i < events.len() implies #[trigger] events[i]
                != SessionEvent::Close && events[i] != SessionEvent::ConnectionLost by {
                if i < before.len() {
                    assert(before[i] == events[i]);
                }
            }
        }
        if next == SessionState::Connecting {
            assert forall|i: int| 0 <= i < events.len() implies #[trigger] events[i]
                != SessionEvent::TransportEstablished by {
                if i < before.len() {
                    assert(before[i] == events[i]);
                }
            }
        }
        if next == SessionState::Authenticating {
            if stage == SessionState::Authenticating {
                let i = choose|i: int|
                    0 <= i < before.len() && #[trigger] before[i]
                        == SessionEvent::TransportEstablished;
                assert(events[i] == SessionEvent::TransportEstablished);
            } else {
                assert(events[events.len() - 1] == SessionEvent::TransportEstablished);
            }
        }
        if next == SessionState::Ready {
            if stage == SessionState::Ready {
                let (i, j) = choose|i: int, j: int|
                    0 <= i < j < before.len() && #[trigger] before[i]
                        == SessionEvent::TransportEstablished && #[trigger] before[j]
                        == SessionEvent::AuthSucceeded;
                assert(events[i] == SessionEvent::TransportEstablished);
                assert(events[j] == SessionEvent::AuthSucceeded);
            } else {
                let i = choose|i: int|
                    0 <= i < before.len() && #[trigger] before[i]
                        == SessionEvent::TransportEstablished;
                assert(events[i] == SessionEvent::TransportEstablished);
                assert(events[events.len() - 1] == SessionEvent::AuthSucceeded);
            }
        }
    }
}

/// A session that was closed stays closed, and a session that has lost its
/// connection does not get it back.
pub proof fn law_gone_is_gone(stage: SessionState, events: Seq<SessionEvent>)
    requires
        stage.spec_is_closed(),
    ensures
        stage.after(events).spec_is_closed(),
        stage == SessionState::Closed ==> stage.after(events) == SessionState::Closed,
    decreases events.len(),
{
    if events.len() > 0 {
        law_gone_is_gone(stage, events.drop_last());
    }
}

} // verus!
