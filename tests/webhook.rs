use hmac::Mac;
use psdevbot::config::{Config, RoomConfiguration, UsernameAliases};
use psdevbot::schema::{
    Author, InitialPayload, InitialRepository, Commit, PullRequest, PullRequestEvent, PushEvent, PushEventContext, Repository, Sender,
};
use psdevbot::sender::OutboundMessage;
use psdevbot::signature::{verify_signature, RejectionError};
use psdevbot::webhook::{
    defuse, event_kind, get_rooms, handle_pull_request, handle_push_event, html_command,
    is_ignored, EventKind, PullRequestDedup, DEDUP_WINDOW_SECS,
};

fn sign(secret: &str, body: &[u8]) -> String {
    let mut mac = hmac::Hmac::<sha2::Sha256>::new_from_slice(secret.as_bytes()).unwrap();
    mac.update(body);
    format!("sha256={}", hex::encode(mac.finalize().into_bytes()))
}

fn room_configuration(rooms: &[&str], simple: &[&str]) -> RoomConfiguration {
    RoomConfiguration {
        rooms: rooms.iter().map(|r| r.to_string()).collect(),
        secret: None,
        simple_rooms: simple.iter().map(|r| r.to_string()).collect(),
    }
}

fn push_event(git_ref: &str) -> PushEvent {
    PushEvent {
        git_ref: git_ref.into(),
        commits: vec![Commit {
            id: "0da2590a700d054fc2ce39ddc9c95f360329d9be".into(),
            message: "Hello, world!".into(),
            author: Author {
                name: "Konrad Borowski".into(),
                username: Some("xfix".into()),
            },
            url: "http://example.com".into(),
        }],
        repository: Repository {
            name: "pokemon-showdown".into(),
            html_url: "https://github.com/smogon/pokemon-showdown".into(),
            default_branch: "master".into(),
        },
    }
}

fn context() -> PushEventContext {
    PushEventContext {
        profiles: vec![],
        username_aliases: UsernameAliases::default(),
    }
}

fn chat(message: &OutboundMessage) -> (&str, &str) {
    match message {
        OutboundMessage::ChatCommand { room, command } => (room.as_str(), command.as_str()),
        OutboundMessage::GlobalCommand { .. } => panic!("expected a room command"),
    }
}

fn pull_request_event(action: &str, number: u32) -> PullRequestEvent {
    PullRequestEvent {
        action: action.into(),
        pull_request: PullRequest {
            number,
            html_url: "http://example.com/pr/1".into(),
            title: "Hello, world".into(),
        },
        repository: Repository {
            name: "ExampleCom".into(),
            html_url: "http://example.com/".into(),
            default_branch: "master".into(),
        },
        sender: Sender { login: "Me".into() },
    }
}

#[test]
fn push_to_default_branch_is_sent_to_every_room() {
    let messages = handle_push_event(
        &room_configuration(&["dev", "lobby"], &["simple"]),
        &push_event("refs/heads/master"),
        &context(),
    );
    assert_eq!(messages.len(), 3);
    let (room, text) = chat(&messages[0]);
    assert_eq!(room, "dev");
    assert!(text.starts_with("addhtmlbox [<a href='https://github.com/smogon/pokemon-showdown'>"));
    assert!(text.contains("<kbd>0da259</kbd>"));
    assert!(text.contains(r#"title="Konrad Borowski""#));
    assert!(text.contains("<span title='Hello, world!'>Hello, world!</span>"));
    assert!(!text.contains("…"));
    assert_eq!(chat(&messages[1]).0, "lobby");
    assert_eq!(chat(&messages[1]).1, text);
    let (simple_room, simple_text) = chat(&messages[2]);
    assert_eq!(simple_room, "simple");
    assert!(simple_text.contains("<a href='http://example.com'>Hello, world!</a>"));
}

#[test]
fn push_to_other_branch_sends_nothing() {
    let messages = handle_push_event(
        &room_configuration(&["dev"], &["simple"]),
        &push_event("refs/heads/feature"),
        &context(),
    );
    assert!(messages.is_empty());
}

#[test]
fn push_to_a_branch_ending_in_the_default_name_sends_nothing() {
    let rooms = room_configuration(&["dev"], &["simple"]);
    for git_ref in ["refs/heads/x/master", "refs/tags/master", "master", "refs/heads/"] {
        assert!(handle_push_event(&rooms, &push_event(git_ref), &context()).is_empty());
    }
}

#[test]
fn event_names_are_dispatched() {
    assert_eq!(event_kind("push"), EventKind::Push);
    assert_eq!(event_kind("pull_request"), EventKind::PullRequest);
    assert_eq!(event_kind("issues"), EventKind::Other);
    assert_eq!(event_kind("Push"), EventKind::Other);
}

#[test]
fn pull_request_names_repository_sender_and_number() {
    let mut seen = PullRequestDedup::new();
    let rooms = vec!["dev".to_string()];
    let messages = handle_pull_request(
        &UsernameAliases::default(),
        &mut seen,
        &rooms,
        &pull_request_event("created", 1),
    )
    .unwrap();
    assert_eq!(messages.len(), 1);
    let (room, text) = chat(&messages[0]);
    assert_eq!(room, "dev");
    assert!(text.contains("ExampleCom"));
    assert!(text.contains(">Me</font>"));
    assert!(text.contains("#1</a>"));
}

#[test]
fn pull_request_is_suppressed_within_the_window() {
    let mut seen = PullRequestDedup::new();
    let rooms = vec!["dev".to_string()];
    let aliases = UsernameAliases::default();
    assert!(handle_pull_request(&aliases, &mut seen, &rooms, &pull_request_event("opened", 7)).is_some());
    assert!(seen.contains(7));
    assert!(handle_pull_request(&aliases, &mut seen, &rooms, &pull_request_event("synchronize", 7)).is_none());
    assert!(handle_pull_request(&aliases, &mut seen, &rooms, &pull_request_event("opened", 8)).is_some());
    seen.expire(7);
    assert!(!seen.contains(7));
    assert!(handle_pull_request(&aliases, &mut seen, &rooms, &pull_request_event("closed", 7)).is_some());
    assert_eq!(DEDUP_WINDOW_SECS, 600);
}

#[test]
fn ignored_actions_leave_no_trace() {
    let mut seen = PullRequestDedup::new();
    let rooms = vec!["dev".to_string()];
    for action in ["labeled", "unlabeled", "ready_for_review", "converted_to_draft"] {
        assert!(is_ignored(action));
        assert!(handle_pull_request(
            &UsernameAliases::default(),
            &mut seen,
            &rooms,
            &pull_request_event(action, 3)
        )
        .is_none());
    }
    assert!(!seen.contains(3));
    assert!(!is_ignored("opened"));
}

#[test]
fn commands_defuse_here() {
    assert_eq!(defuse("where here there"), "wher&#101; her&#101; ther&#101;");
    assert_eq!(defuse("her"), "her");
    let message = html_command("lobby", "here");
    assert_eq!(chat(&message), ("lobby", "her&#101;"));
}

#[test]
fn correct_signature_is_accepted() {
    let body = br#"{"repository":{"full_name":"a/b"}}"#;
    let signature = sign("secret", body);
    assert_eq!(verify_signature("secret", Some(&signature), body), Ok(()));
    assert_eq!(verify_signature("", None, body), Ok(()));
}

#[test]
fn mutated_body_or_signature_is_rejected() {
    let body = b"payload".to_vec();
    let signature = sign("secret", &body);
    let mut changed = body.clone();
    changed[0] ^= 1;
    assert_eq!(
        verify_signature("secret", Some(&signature), &changed),
        Err(RejectionError::SignatureMismatch)
    );
    let mut bad = signature.clone().into_bytes();
    let last = bad.len() - 1;
    bad[last] = if bad[last] == b'0' { b'1' } else { b'0' };
    let bad = String::from_utf8(bad).unwrap();
    assert_eq!(
        verify_signature("secret", Some(&bad), &body),
        Err(RejectionError::SignatureMismatch)
    );
    let flipped: String = signature
        .char_indices()
        .map(|(i, c)| if i >= 7 && c.is_ascii_lowercase() { c.to_ascii_uppercase() } else { c })
        .collect();
    assert_ne!(flipped, signature);
    assert_eq!(
        verify_signature("secret", Some(&flipped), &body),
        Err(RejectionError::InvalidHex)
    );
    assert_eq!(
        verify_signature("other", Some(&signature), &body),
        Err(RejectionError::SignatureMismatch)
    );
}

#[test]
fn each_signature_fault_has_its_error() {
    let body = b"x";
    assert_eq!(verify_signature("s", None, body), Err(RejectionError::MissingSignature));
    assert_eq!(
        verify_signature("s", Some("sha1=00"), body),
        Err(RejectionError::MalformedSignature)
    );
    assert_eq!(verify_signature("s", Some("sha256=0g"), body), Err(RejectionError::InvalidHex));
    assert_eq!(verify_signature("s", Some("sha256=AB"), body), Err(RejectionError::InvalidHex));
    assert_eq!(verify_signature("s", Some("sha256=abc"), body), Err(RejectionError::InvalidHex));
    assert_eq!(
        verify_signature("s", Some("sha256=abcd"), body),
        Err(RejectionError::SignatureMismatch)
    );
    assert_eq!(RejectionError::MissingSignature.reason(), "Missing signature");
    assert_eq!(RejectionError::SignatureMismatch.reason(), "Signature mismatch");
}

#[test]
fn get_rooms_checks_the_repository_secret() {
    let mut project = room_configuration(&["dev"], &[]);
    project.secret = Some("own".into());
    let config = Config::from_parts(
        "s".into(),
        "u".into(),
        "p".into(),
        "global".into(),
        3030,
        Some("lobby".into()),
        vec![("a/b".into(), project)],
        UsernameAliases::default(),
    );
    let body = b"{}";
    let repo = |name: &str| InitialPayload {
        repository: InitialRepository {
            full_name: name.into(),
        },
    };
    let own = sign("own", body);
    assert_eq!(get_rooms(&config, &repo("a/b"), Some(&own), body).unwrap().rooms, ["dev"]);
    assert_eq!(
        get_rooms(&config, &repo("c/d"), Some(&own), body).err(),
        Some(RejectionError::SignatureMismatch)
    );
    let global = sign("global", body);
    assert_eq!(get_rooms(&config, &repo("c/d"), Some(&global), body).unwrap().rooms, ["lobby"]);
    assert_eq!(
        get_rooms(&config, &repo("a/b"), None, body).err(),
        Some(RejectionError::MissingSignature)
    );
}
