//! The decisions of a connection's life: the login handshake, joining the
//! rooms once logged in, and when to reconnect.

use vstd::prelude::*;
use crate::config::Config;
use crate::sender::OutboundMessage;

verus! {

/// How long the handshake may take, in seconds.
pub const AUTHENTICATION_TIMEOUT_SECS: u64 = 30;

/// How long to wait before reconnecting, in seconds.
pub const RECONNECT_DELAY_SECS: u64 = 10;

/// Why a connection attempt failed before it was logged in.
#[derive(Debug, PartialEq, Eq, Structural, Clone, Copy)]
pub enum AuthenticationError {
    /// The server closed the connection before it sent a challenge.
    DisconnectedBeforeChallenge,
    /// The login was refused.
    LoginRejected,
    /// The handshake took longer than its timeout.
    TimedOut,
}

/// What happened on the connection during the handshake.
#[derive(Debug, PartialEq, Eq, Structural, Clone, Copy)]
pub enum HandshakeEvent {
    /// The server sent its challenge.
    Challenge,
    /// The server sent something else.
    OtherMessage,
    /// The server closed the connection.
    Closed,
    /// The login request was sent.
    LoginSent,
    /// The login request could not be made or sent.
    LoginFailed,
    /// The server confirmed that the connection is logged in under a name.
    Named,
    /// The handshake's timeout passed.
    Timeout,
}

#[derive(Debug, PartialEq, Eq, Structural, Clone, Copy)]
pub enum HandshakeState {
    AwaitingChallenge,
    LoggingIn,
    Authenticated,
    Failed(AuthenticationError),
}

/// What the connection's owner does next.
#[derive(Debug, PartialEq, Eq, Structural, Clone, Copy)]
pub enum HandshakeAction {
    /// Read the next message.
    Continue,
    /// Answer the challenge with the configured login.
    Login,
    /// Hand the connection to the outbound queue and the message loop.
    HandOff,
    /// Give up on this connection.
    Abort(AuthenticationError),
}

/// One step of the handshake. Messages before the challenge are ignored;
/// after the login is sent, the handshake waits for the server to confirm
/// it, and ends then or on the first failure.
pub open spec fn handshake_step(state: HandshakeState, event: HandshakeEvent) -> (HandshakeState, HandshakeAction) {
    match state {
        HandshakeState::AwaitingChallenge => match event {
            HandshakeEvent::Challenge => (HandshakeState::LoggingIn, HandshakeAction::Login),
            HandshakeEvent::Closed => (
                HandshakeState::Failed(AuthenticationError::DisconnectedBeforeChallenge),
                HandshakeAction::Abort(AuthenticationError::DisconnectedBeforeChallenge),
            ),
            HandshakeEvent::Timeout => (
                HandshakeState::Failed(AuthenticationError::TimedOut),
                HandshakeAction::Abort(AuthenticationError::TimedOut),
            ),
            _ => (state, HandshakeAction::Continue),
        },
        HandshakeState::LoggingIn => match event {
            HandshakeEvent::Named => (HandshakeState::Authenticated, HandshakeAction::HandOff),
            HandshakeEvent::LoginFailed | HandshakeEvent::Closed => (
                HandshakeState::Failed(AuthenticationError::LoginRejected),
                HandshakeAction::Abort(AuthenticationError::LoginRejected),
            ),
            HandshakeEvent::Timeout => (
                HandshakeState::Failed(AuthenticationError::TimedOut),
                HandshakeAction::Abort(AuthenticationError::TimedOut),
            ),
            _ => (state, HandshakeAction::Continue),
        },
        HandshakeState::Authenticated => (state, HandshakeAction::HandOff),
        HandshakeState::Failed(e) => (state, HandshakeAction::Abort(e)),
    }
}

pub fn authenticate_step(state: HandshakeState, event: HandshakeEvent) -> (r: (HandshakeState, HandshakeAction))
    ensures
        r == handshake_step(state, event),
{
    match state {
        HandshakeState::AwaitingChallenge => match event {
            HandshakeEvent::Challenge => (HandshakeState::LoggingIn, HandshakeAction::Login),
            HandshakeEvent::Closed => (
                HandshakeState::Failed(AuthenticationError::DisconnectedBeforeChallenge),
                HandshakeAction::Abort(AuthenticationError::DisconnectedBeforeChallenge),
            ),
            HandshakeEvent::Timeout => (
                HandshakeState::Failed(AuthenticationError::TimedOut),
                HandshakeAction::Abort(AuthenticationError::TimedOut),
            ),
            _ => (state, HandshakeAction::Continue),
        },
        HandshakeState::LoggingIn => match event {
            HandshakeEvent::Named => (HandshakeState::Authenticated, HandshakeAction::HandOff),
            HandshakeEvent::LoginFailed | HandshakeEvent::Closed => (
                HandshakeState::Failed(AuthenticationError::LoginRejected),
                HandshakeAction::Abort(AuthenticationError::LoginRejected),
            ),
            HandshakeEvent::Timeout => (
                HandshakeState::Failed(AuthenticationError::TimedOut),
                HandshakeAction::Abort(AuthenticationError::TimedOut),
            ),
            _ => (state, HandshakeAction::Continue),
        },
        HandshakeState::Authenticated => (state, HandshakeAction::HandOff),
        HandshakeState::Failed(e) => (state, HandshakeAction::Abort(e)),
    }
}

/// Whether a connection ended with an error or was closed by the server in
/// the regular way.
#[derive(Debug, PartialEq, Eq, Structural, Clone, Copy)]
pub enum Disconnect {
    Regular,
    Error,
}

/// Seconds to wait before the next connection attempt: the same backoff
/// however the connection ended.
pub fn reconnect_delay(disconnect: Disconnect) -> (r: u64)
    ensures
        r == RECONNECT_DELAY_SECS,
{
    match disconnect {
        Disconnect::Regular => RECONNECT_DELAY_SECS,
        Disconnect::Error => RECONNECT_DELAY_SECS,
    }
}

/// The command that joins `room`.
pub open spec fn join_text(room: Seq<char>) -> Seq<char> {
    "join "@ + room
}

/// The commands that join each of `rooms`, in order; sent once the server
/// confirms the login.
pub fn join_commands(rooms: &Vec<String>) -> (r: Vec<OutboundMessage>)
    ensures
        r@.len() == rooms@.len(),
        forall|k: int| 0 <= k < r@.len() ==> #[trigger] r@[k]@ == (None::<Seq<char>>, join_text(rooms@[k]@)),
{
    let mut r: Vec<OutboundMessage> = Vec::new();
    let mut i: usize = 0;
    while i < rooms.len()
        invariant
            i <= rooms.len(),
            r@.len() == i,
            forall|k: int| 0 <= k < i ==> #[trigger] r@[k]@ == (None::<Seq<char>>, join_text(rooms@[k]@)),
        decreases rooms.len() - i,
    {
        let mut command = String::from_str("join ");
        command.append(rooms[i].as_str());
        r.push(OutboundMessage::GlobalCommand { command });
        i = i + 1;
    }
    r
}

/// The commands that join every room of the configuration, each once.
pub fn join_all_rooms(config: &Config) -> (r: Vec<OutboundMessage>)
    requires
        config.wf(),
    ensures
        forall|room: Seq<char>| config.is_configured_room(room) <==> exists|k: int|
            0 <= k < r@.len() && #[trigger] r@[k]@ == (None::<Seq<char>>, join_text(room)),
        forall|a: int, b: int| #![trigger r@[a], r@[b]] 0 <= a < b < r@.len() ==> r@[a]@ != r@[b]@,
{
    let rooms = config.all_rooms();
    let r = join_commands(&rooms);
    assert forall|room: Seq<char>| config.is_configured_room(room) <==> exists|k: int|
        0 <= k < r@.len() && #[trigger] r@[k]@ == (None::<Seq<char>>, join_text(room)) by {
        reveal_strlit("join ");
        if config.is_configured_room(room) {
            assert(crate::config::holds_name(rooms@, room));
            let k = choose|k: int| 0 <= k < rooms@.len() && #[trigger] rooms@[k]@ == room;
            assert(r@[k]@ == (None::<Seq<char>>, join_text(room)));
        }
        if exists|k: int| 0 <= k < r@.len() && #[trigger] r@[k]@ == (None::<Seq<char>>, join_text(room)) {
            let k = choose|k: int| 0 <= k < r@.len() && #[trigger] r@[k]@ == (None::<Seq<char>>, join_text(room));
            assert(join_text(rooms@[k]@) == join_text(room));
            assert(rooms@[k]@ =~= join_text(rooms@[k]@).subrange(5, join_text(rooms@[k]@).len() as int));
            assert(room =~= join_text(room).subrange(5, join_text(room).len() as int));
            assert(crate::config::holds_name(rooms@, room));
        }
    }
    assert forall|a: int, b: int| #![trigger r@[a], r@[b]] 0 <= a < b < r@.len() implies r@[a]@ != r@[b]@ by {
        reveal_strlit("join ");
        assert(rooms@[a]@ != rooms@[b]@);
        if r@[a]@ == r@[b]@ {
            assert(rooms@[a]@ =~= join_text(rooms@[a]@).subrange(5, join_text(rooms@[a]@).len() as int));
            assert(rooms@[b]@ =~= join_text(rooms@[b]@).subrange(5, join_text(rooms@[b]@).len() as int));
        }
    }
    r
}

} // verus!
