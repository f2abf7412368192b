use vine::command::dispatcher::{CommandDispatcher, PluginCommand, PluginSender};
use vine::command::source::Effect;
use vine::config::Config;
use vine::plugin::api::{
    EventPriority, EventType, PlayerChatEvent, PlayerCommandEvent, PlayerDisconnectEvent,
    PlayerJoinEvent, PlayerLoginEvent, PlayerPreLoginEvent, PluginContext, PluginMessageEvent,
    PluginMetadata, ProxyPingEvent, ServerConnectEvent, ServerConnectedEvent,
};
use vine::plugin::manager::can_load;
use vine::plugin::{Event, PluginManager, ProxyPluginContext};
use vine::session::{PlayerAction, PlayerSession, SessionManager};

#[test]
fn test_event_priority_ordering() {
    assert!(EventPriority::Lowest < EventPriority::Low);
    assert!(EventPriority::Low < EventPriority::Normal);
    assert!(EventPriority::Normal < EventPriority::High);
    assert!(EventPriority::High < EventPriority::Highest);
    assert!(EventPriority::Highest < EventPriority::Monitor);
    assert_eq!(EventPriority::Lowest.rank(), 0);
    assert_eq!(EventPriority::Monitor.rank(), 5);
}

fn ping_event() -> ProxyPingEvent {
    ProxyPingEvent {
        client_ip: "127.0.0.1".to_string(),
        protocol_version: 765,
        virtual_host: "localhost".to_string(),
        motd: "A Minecraft Proxy".to_string(),
        max_players: 100,
        online_players: 0,
        version_name: "Vine 1.21".to_string(),
    }
}

fn chat(message: &str, cancelled: bool) -> PlayerChatEvent {
    PlayerChatEvent {
        uuid: "00000000-0000-0000-0000-000000000001".to_string(),
        username: "Player1".to_string(),
        message: message.to_string(),
        cancelled,
    }
}

#[test]
fn test_plugin_manager_event_dispatch() {
    let manager = PluginManager::new("./plugins".to_string());
    let id = "00000000-0000-0000-0000-000000000001".to_string();

    // Proxy ping
    let firing = manager.fire_proxy_ping(ping_event());
    assert!(firing.next_handler().is_none());
    match firing.event {
        Event::ProxyPing(ping) => {
            assert_eq!(ping.motd, "A Minecraft Proxy");
            assert_eq!(ping.max_players, 100);
        }
        _ => panic!("another event"),
    }

    // Player pre-login
    let pre_login = PlayerPreLoginEvent {
        client_ip: "127.0.0.1".to_string(),
        username: "Player1".to_string(),
        protocol_version: 765,
        virtual_host: "localhost".to_string(),
        cancelled: false,
        cancel_reason: None,
    };
    let firing = manager.fire_player_pre_login(pre_login);
    assert!(matches!(firing.event, Event::PlayerPreLogin(e) if !e.cancelled));

    // Player login
    let login = PlayerLoginEvent {
        uuid: id.clone(),
        username: "Player1".to_string(),
        client_ip: "127.0.0.1".to_string(),
        cancelled: false,
        cancel_reason: None,
    };
    assert!(matches!(manager.fire_player_login(login).event, Event::PlayerLogin(e) if !e.cancelled));

    // Server connect
    let connect = ServerConnectEvent {
        uuid: id.clone(),
        username: "Player1".to_string(),
        current_server: None,
        target_server: "lobby".to_string(),
        cancelled: false,
        cancel_reason: None,
    };
    match manager.fire_server_connect(connect).event {
        Event::ServerConnect(e) => {
            assert_eq!(e.target_server, "lobby");
            assert!(!e.cancelled);
        }
        _ => panic!("another event"),
    }

    // Server connected
    let connected = ServerConnectedEvent {
        uuid: id.clone(),
        username: "Player1".to_string(),
        server_name: "lobby".to_string(),
    };
    assert!(manager.fire_server_connected(connected).next_handler().is_none());

    // Player join
    let join = PlayerJoinEvent {
        uuid: id.clone(),
        username: "Player1".to_string(),
        client_ip: "127.0.0.1".to_string(),
        initial_server: "lobby".to_string(),
    };
    assert!(manager.fire_player_join(join).next_handler().is_none());

    // Player chat
    match manager.fire_player_chat(chat("Hello proxy!", false)).event {
        Event::PlayerChat(e) => {
            assert_eq!(e.message, "Hello proxy!");
            assert!(!e.cancelled);
        }
        _ => panic!("another event"),
    }

    // Player command
    let cmd = PlayerCommandEvent {
        uuid: id.clone(),
        username: "Player1".to_string(),
        command: "ping".to_string(),
        cancelled: false,
    };
    assert!(matches!(manager.fire_player_command(cmd).event, Event::PlayerCommand(e) if !e.cancelled));

    // Plugin message
    let msg = PluginMessageEvent {
        channel: "vine:test".to_string(),
        data: vec![1, 2, 3],
        player_uuid: Some(id.clone()),
        server_name: Some("lobby".to_string()),
        cancelled: false,
    };
    assert!(matches!(manager.fire_plugin_message(msg).event, Event::PluginMessage(e) if !e.cancelled));

    // Player disconnect
    let disc = PlayerDisconnectEvent {
        uuid: id,
        username: "Player1".to_string(),
        last_server: Some("lobby".to_string()),
    };
    assert!(manager.fire_player_disconnect(disc).next_handler().is_none());
}

#[test]
fn test_plugin_manager_empty_dir() {
    let mut manager = PluginManager::new("./empty".to_string());
    assert_eq!(manager.plugins_dir, "./empty");
    assert_eq!(manager.loaded_plugins.len(), 0);
    assert!(manager.unload_plugins().is_empty());
    manager.on_unloaded();
    assert_eq!(manager.plugins_dir, "./empty");
    assert!(manager.handlers(EventType::PlayerChat).is_empty());
}

#[test]
fn plugins_are_told_by_priority_then_by_registration() {
    let mut manager = PluginManager::new("./plugins".to_string());
    manager.register_event_handler(EventType::PlayerChat, EventPriority::High, 1, 10);
    manager.register_event_handler(EventType::PlayerChat, EventPriority::Lowest, 2, 11);
    manager.register_event_handler(EventType::PlayerCommand, EventPriority::Lowest, 3, 12);
    manager.register_event_handler(EventType::PlayerChat, EventPriority::High, 4, 13);
    manager.register_event_handler(EventType::PlayerChat, EventPriority::Normal, 5, 14);
    let ids: Vec<u32> =
        manager.handlers(EventType::PlayerChat).iter().map(|h| h.handler_id).collect();
    assert_eq!(ids, vec![2, 5, 1, 4]);
    manager.on_loaded(10, true);
    manager.on_loaded(11, false);
    assert_eq!(manager.unload_plugins(), vec![10]);
    manager.on_unloaded();
    assert!(manager.handlers(EventType::PlayerChat).is_empty());
}

#[test]
fn a_cancelled_event_goes_no_further() {
    let mut manager = PluginManager::new("./plugins".to_string());
    for n in 0..3 {
        manager.register_event_handler(EventType::PlayerChat, EventPriority::Normal, n, 1);
    }
    let mut firing = manager.fire_player_chat(chat("hi", false));
    assert_eq!(firing.next_handler().unwrap().handler_id, 0);
    firing.on_reply(Some(Event::PlayerChat(PlayerChatEvent {
        uuid: "forged".to_string(),
        username: "forged".to_string(),
        message: "changed".to_string(),
        cancelled: false,
    })));
    assert_eq!(firing.next_handler().unwrap().handler_id, 1);
    assert_eq!(firing.event, Event::PlayerChat(chat("changed", false)));
    firing.on_reply(Some(Event::PlayerChat(chat("gone", true))));
    assert!(firing.next_handler().is_none());
    assert_eq!(firing.event, Event::PlayerChat(chat("gone", true)));
}

#[test]
fn other_answers_change_nothing() {
    let mut manager = PluginManager::new("./plugins".to_string());
    for n in 0..2 {
        manager.register_event_handler(EventType::ProxyPing, EventPriority::Normal, n, 1);
    }
    let mut firing = manager.fire_proxy_ping(ping_event());
    firing.on_reply(None);
    firing.on_reply(Some(Event::PlayerChat(chat("x", true))));
    assert!(firing.next_handler().is_none());
    assert_eq!(firing.event, Event::ProxyPing(ping_event()));
    let mut again = manager.fire_proxy_ping(ping_event());
    let mut reply = ping_event();
    reply.motd = "new".to_string();
    reply.online_players = 9;
    reply.client_ip = "forged".to_string();
    again.on_reply(Some(Event::ProxyPing(reply)));
    match again.event.clone() {
        Event::ProxyPing(e) => {
            assert_eq!((e.motd.as_str(), e.online_players), ("new", 9));
            assert_eq!(e.client_ip, "127.0.0.1");
        }
        _ => panic!("another event"),
    }
}

#[test]
fn a_command_has_all_its_names() {
    let manager = PluginManager::new("./plugins".to_string());
    let mut dispatcher = CommandDispatcher::new();
    manager.register_command(
        &mut dispatcher,
        PluginCommand { plugin: 1, id: 2 },
        "warp".to_string(),
        "Warps".to_string(),
        vec!["w".to_string(), "go".to_string()],
        None,
    );
    for name in ["warp", "w", "go", "server"] {
        assert!(dispatcher.has_command(name));
    }
    assert!(!dispatcher.has_command("warps"));
}

#[test]
fn plugins_are_files_of_one_kind() {
    assert!(can_load(Some("wasm")));
    assert!(can_load(Some("WASM")));
    assert!(!can_load(Some("so")));
    assert!(!can_load(None));
}

#[test]
fn a_context_remembers_registrations() {
    let metadata = PluginMetadata {
        name: "test-plugin".to_string(),
        version: "1.0.0".to_string(),
        authors: vec!["Author1".to_string()],
        description: Some("A test plugin".to_string()),
        dependencies: vec!["other-plugin".to_string()],
    };
    let mut context = PluginContext::new(metadata.clone(), "plugins/data/x".to_string());
    context.on_event_registered(4, EventType::PlayerJoin, EventPriority::Low);
    context.on_command_registered(5);
    assert_eq!(context.metadata, metadata);
    assert_eq!(
        context.registered_events,
        vec![(4, EventType::PlayerJoin, EventPriority::Low)]
    );
    assert_eq!(context.registered_commands, vec![5]);
}

fn session(username: &str, uuid: u128, server: &str, channel: u64) -> PlayerSession {
    PlayerSession {
        username: username.to_string(),
        uuid,
        current_server: server.to_string(),
        client_ip: "10.0.0.1".to_string(),
        protocol_version: 765,
        channel,
    }
}

#[test]
fn plugins_see_players_and_servers() {
    let config = Config::default();
    let mut sessions = SessionManager::new();
    sessions.register(session("Steve", 1, "lobby", 10));
    sessions.register(session("Alex", 2, "lobby", 20));
    let ctx = ProxyPluginContext { servers: &config.servers, session_manager: &sessions };
    assert_eq!(ctx.get_player_count(), 2);
    let players = ctx.get_players();
    assert_eq!(players.len(), 2);
    for p in &players {
        assert_eq!(ctx.get_player_by_uuid(&p.uuid).as_ref(), Some(p));
        assert_eq!(ctx.get_player_by_name(&p.username.to_uppercase()).as_ref(), Some(p));
    }
    assert_eq!(players[0].uuid, "00000000-0000-0000-0000-000000000001");
    assert_eq!(ctx.get_player_by_uuid("nonsense"), None);
    assert_eq!(ctx.get_player_by_name("Nobody"), None);
    for s in ctx.get_servers() {
        assert_eq!(s.player_count, if s.name == "lobby" { 2 } else { 0 });
    }
}

#[test]
fn plugins_act_on_players() {
    let config = Config::default();
    let mut sessions = SessionManager::new();
    sessions.register(session("Steve", 1, "lobby", 10));
    sessions.register(session("Alex", 2, "lobby", 20));
    let ctx = ProxyPluginContext { servers: &config.servers, session_manager: &sessions };
    let alex = "00000000-0000-0000-0000-000000000002";
    let act = |action: PlayerAction| Some(Effect::Act { channel: 20, action });
    assert_eq!(
        ctx.send_message(alex, "hi".to_string()),
        act(PlayerAction::Message("hi".to_string()))
    );
    assert_eq!(
        ctx.disconnect_player(alex, "bye".to_string()),
        act(PlayerAction::Disconnect("bye".to_string()))
    );
    assert_eq!(
        ctx.connect_player(alex, "survival".to_string()),
        act(PlayerAction::Connect { server_name: "survival".to_string() })
    );
    assert_eq!(ctx.connect_player(alex, "nowhere".to_string()), None);
    assert_eq!(
        ctx.send_plugin_message(alex, "c".to_string(), vec![7]),
        act(PlayerAction::PluginMessage { channel: "c".to_string(), data: vec![7] })
    );
    let nobody = "00000000-0000-0000-0000-000000000003";
    assert_eq!(ctx.send_message(nobody, "hi".to_string()), None);
    let all = ctx.broadcast("news");
    assert_eq!(all.len(), 3);
    assert_eq!(all[2], Effect::Log("[Broadcast] news".to_string()));
    let console = PluginSender { is_player: false, name: "CONSOLE".to_string(), player_uuid: None };
    assert_eq!(
        ctx.reply(&console, "x".to_string()),
        Some(Effect::Log("[Console] x".to_string()))
    );
    let player =
        PluginSender { is_player: true, name: "Alex".to_string(), player_uuid: Some(alex.to_string()) };
    assert_eq!(ctx.reply(&player, "x".to_string()), act(PlayerAction::Message("x".to_string())));
    let lost = PluginSender { is_player: true, name: "Alex".to_string(), player_uuid: None };
    assert_eq!(ctx.reply(&lost, "x".to_string()), None);
}
