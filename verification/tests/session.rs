use vine::session::{PlayerAction, PlayerSession, SessionManager};

fn player(username: &str, uuid: u128, server: &str, channel: u64) -> PlayerSession {
    PlayerSession {
        username: username.to_string(),
        uuid,
        current_server: server.to_string(),
        client_ip: "127.0.0.1".to_string(),
        protocol_version: 765,
        channel,
    }
}

#[test]
fn test_session_registration_and_lookup() {
    let mut manager = SessionManager::new();
    assert_eq!(manager.count(), 0);

    manager.register(player("Steve", 1, "lobby", 1));
    assert_eq!(manager.count(), 1);

    let found = manager.get_session("steve");
    assert!(found.is_some());
    assert_eq!(found.unwrap().username, "Steve");

    let removed = manager.unregister("STEVE");
    assert!(removed.is_some());
    assert_eq!(manager.count(), 0);
    assert!(manager.get_session("Steve").is_none());
}

#[test]
fn test_session_update_server() {
    let mut manager = SessionManager::new();
    manager.register(player("Alex", 2, "lobby", 1));
    assert_eq!(manager.get_session("Alex").unwrap().current_server, "lobby");

    manager.update_server("alex", "survival");
    assert_eq!(
        manager.get_session("Alex").unwrap().current_server,
        "survival"
    );
}

#[test]
fn a_second_login_takes_the_first_ones_place() {
    let mut manager = SessionManager::default();
    manager.register(player("Steve", 1, "lobby", 1));
    manager.register(player("Alex", 2, "lobby", 2));
    manager.register(player("STEVE", 1, "survival", 3));
    assert_eq!(manager.count(), 2);
    assert_eq!(manager.get_session("steve").unwrap().channel, 3);
    let names: Vec<String> = manager.list_sessions().into_iter().map(|s| s.username).collect();
    assert_eq!(names.len(), 2);
    assert!(names.contains(&"STEVE".to_string()));
    assert!(names.contains(&"Alex".to_string()));
}

#[test]
fn unknown_players_change_nothing() {
    let mut manager = SessionManager::new();
    manager.register(player("Steve", 1, "lobby", 1));
    assert!(manager.unregister("Alex").is_none());
    manager.update_server("Alex", "survival");
    assert_eq!(manager.list_sessions(), vec![player("Steve", 1, "lobby", 1)]);
}

#[test]
fn actions_can_be_copied() {
    let actions = vec![
        PlayerAction::Connect { server_name: "a".to_string() },
        PlayerAction::Transfer { host: "h".to_string(), port: 25565 },
        PlayerAction::Message("m".to_string()),
        PlayerAction::Disconnect("d".to_string()),
        PlayerAction::PluginMessage { channel: "c".to_string(), data: vec![1, 2] },
    ];
    for a in &actions {
        assert_eq!(&a.clone(), a);
    }
}
