use psdevbot::config::{Config, ConfigError, RoomConfiguration, UsernameAliases};

fn base_config(
    default_room_name: Option<String>,
    room_configuration: Vec<(String, RoomConfiguration)>,
) -> Config {
    Config::from_parts(
        "wss://localhost/showdown/websocket".into(),
        "".into(),
        "".into(),
        "".into(),
        3030,
        default_room_name,
        room_configuration,
        UsernameAliases::default(),
    )
}

fn rooms(names: &[&str]) -> RoomConfiguration {
    RoomConfiguration {
        rooms: names.iter().map(|n| n.to_string()).collect(),
        secret: None,
        simple_rooms: vec![],
    }
}

#[test]
fn test_all_rooms_default_room() {
    let config = base_config(Some("room".into()), vec![]);
    let mut rooms: Vec<_> = config.all_rooms().into_iter().collect();
    rooms.sort();
    assert_eq!(rooms, ["room"]);
}

#[test]
fn test_all_rooms_room_configuration() {
    let config = base_config(
        None,
        vec![
            ("Project".into(), rooms(&["a", "b"])),
            ("AnotherProject".into(), rooms(&["b", "c"])),
            ("StupidProject".into(), rooms(&[])),
        ],
    );
    let mut rooms: Vec<_> = config.all_rooms().into_iter().collect();
    rooms.sort();
    assert_eq!(rooms, ["a", "b", "c"]);
}

#[test]
fn all_rooms_includes_simple_rooms_once() {
    let mut project = rooms(&["a"]);
    project.simple_rooms = vec!["s".into(), "a".into()];
    let config = base_config(Some("s".into()), vec![("P".into(), project)]);
    let mut all = config.all_rooms();
    all.sort();
    assert_eq!(all, ["a", "s"]);
}

#[test]
fn config_needs_some_room() {
    let r = Config::new(
        "s".into(),
        "u".into(),
        "p".into(),
        "".into(),
        1,
        None,
        None,
        UsernameAliases::default(),
    );
    assert_eq!(r.err(), Some(ConfigError::NoRooms));
    let ok = Config::new(
        "s".into(),
        "u".into(),
        "p".into(),
        "".into(),
        1,
        Some("lobby".into()),
        None,
        UsernameAliases::default(),
    );
    assert!(ok.is_ok());
}

#[test]
fn config_refuses_a_repository_named_twice() {
    let r = Config::new(
        "s".into(),
        "u".into(),
        "p".into(),
        "".into(),
        1,
        None,
        Some(vec![("a/b".into(), rooms(&["x"])), ("a/b".into(), rooms(&["y"]))]),
        UsernameAliases::default(),
    );
    assert_eq!(r.err(), Some(ConfigError::DuplicateRepository));
}

#[test]
fn rooms_for_falls_back_to_the_default_room_and_secret() {
    let mut project = rooms(&["dev"]);
    project.secret = Some("own".into());
    let mut config = base_config(Some("lobby".into()), vec![("smogon/ps".into(), project)]);
    config.secret = "global".into();
    assert_eq!(config.rooms_for("smogon/ps").rooms, ["dev"]);
    assert_eq!(config.secret_for("smogon/ps"), "own");
    assert_eq!(config.rooms_for("other/repo").rooms, ["lobby"]);
    assert_eq!(config.secret_for("other/repo"), "global");
    let no_default = base_config(None, vec![]);
    assert!(no_default.rooms_for("x").rooms.is_empty());
}

#[test]
fn aliases_ignore_ascii_case_and_the_last_wins() {
    let mut aliases = UsernameAliases::new();
    assert_eq!(aliases.get("Zarel"), "Zarel");
    aliases.insert("zarel".into(), "Guangcong".into());
    aliases.insert("ZAREL".into(), "Zarel L.".into());
    assert_eq!(aliases.get("ZaReL"), "Zarel L.");
    assert_eq!(aliases.get("Zare"), "Zare");
}
