use psdevbot::config::{Config, RoomConfiguration, UsernameAliases};
use psdevbot::sender::OutboundMessage;
use psdevbot::session::{
    authenticate_step, join_all_rooms, reconnect_delay, AuthenticationError, Disconnect,
    HandshakeAction, HandshakeEvent, HandshakeState, AUTHENTICATION_TIMEOUT_SECS,
};

#[test]
fn messages_before_the_challenge_are_ignored() {
    let (state, action) = authenticate_step(HandshakeState::AwaitingChallenge, HandshakeEvent::OtherMessage);
    assert_eq!((state, action), (HandshakeState::AwaitingChallenge, HandshakeAction::Continue));
    let (state, action) = authenticate_step(state, HandshakeEvent::Challenge);
    assert_eq!((state, action), (HandshakeState::LoggingIn, HandshakeAction::Login));
    let (state, action) = authenticate_step(state, HandshakeEvent::LoginSent);
    assert_eq!((state, action), (HandshakeState::LoggingIn, HandshakeAction::Continue));
    let (state, action) = authenticate_step(state, HandshakeEvent::OtherMessage);
    assert_eq!((state, action), (HandshakeState::LoggingIn, HandshakeAction::Continue));
    let (state, action) = authenticate_step(state, HandshakeEvent::Named);
    assert_eq!((state, action), (HandshakeState::Authenticated, HandshakeAction::HandOff));
}

#[test]
fn handshake_failures() {
    assert_eq!(
        authenticate_step(HandshakeState::AwaitingChallenge, HandshakeEvent::Closed).1,
        HandshakeAction::Abort(AuthenticationError::DisconnectedBeforeChallenge)
    );
    assert_eq!(
        authenticate_step(HandshakeState::LoggingIn, HandshakeEvent::LoginFailed).1,
        HandshakeAction::Abort(AuthenticationError::LoginRejected)
    );
    assert_eq!(
        authenticate_step(HandshakeState::LoggingIn, HandshakeEvent::Closed).1,
        HandshakeAction::Abort(AuthenticationError::LoginRejected)
    );
    assert_eq!(
        authenticate_step(HandshakeState::AwaitingChallenge, HandshakeEvent::Timeout).1,
        HandshakeAction::Abort(AuthenticationError::TimedOut)
    );
    assert_eq!(AUTHENTICATION_TIMEOUT_SECS, 30);
    assert_eq!(reconnect_delay(Disconnect::Error), 10);
    assert_eq!(reconnect_delay(Disconnect::Regular), 10);
}

#[test]
fn login_joins_each_room_once() {
    let config = Config::from_parts(
        "s".into(),
        "u".into(),
        "p".into(),
        "".into(),
        3030,
        Some("lobby".into()),
        vec![(
            "a/b".into(),
            RoomConfiguration {
                rooms: vec!["dev".into(), "lobby".into()],
                secret: None,
                simple_rooms: vec![],
            },
        )],
        UsernameAliases::default(),
    );
    let mut commands: Vec<String> = join_all_rooms(&config)
        .into_iter()
        .map(|m| match m {
            OutboundMessage::GlobalCommand { command } => command,
            OutboundMessage::ChatCommand { .. } => panic!("expected a global command"),
        })
        .collect();
    assert_eq!(commands.len(), 2);
    commands.sort();
    assert_eq!(commands, ["join dev", "join lobby"]);
}
