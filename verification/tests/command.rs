use vine::command::dispatcher::{
    on_plugin_command, on_plugin_suggestions, CommandDispatcher, CommandEntry, Dispatched,
    PluginCommand, Suggested, Suggestions,
};
use vine::command::send::parse_address;
use vine::command::source::{CommandSender, Effect, Outcome, ProxyCommandSource};
use vine::config::{BackendConfig, Config, ForwardingMode};
use vine::session::{PlayerAction, PlayerSession, SessionManager};

fn backend(address: &str) -> BackendConfig {
    BackendConfig {
        address: address.to_string(),
        forwarding: ForwardingMode::Plain,
        secret: None,
        motd_line1: None,
        motd_line2: None,
        icon_path: None,
    }
}

fn session(username: &str, server: &str, channel: u64) -> PlayerSession {
    PlayerSession {
        username: username.to_string(),
        uuid: channel as u128,
        current_server: server.to_string(),
        client_ip: "127.0.0.1".to_string(),
        protocol_version: 765,
        channel,
    }
}

fn player(username: &str, channel: u64) -> CommandSender {
    CommandSender::Player { username: username.to_string(), channel }
}

fn done(d: Dispatched) -> Outcome {
    match d {
        Dispatched::Done(o) => o,
        Dispatched::AskPlugin { .. } => panic!("a plugin was to be asked"),
    }
}

fn ready(s: Suggested) -> Suggestions {
    match s {
        Suggested::Ready(s) => s,
        Suggested::AskPlugin { .. } => panic!("a plugin was to be asked"),
    }
}

fn names(s: Suggested) -> Vec<String> {
    ready(s).offers.into_iter().map(|o| o.text).collect()
}

fn message_to(o: &Outcome, to: u64) -> String {
    match &o.effects[0] {
        Effect::Act { channel, action: PlayerAction::Message(text) } => {
            assert_eq!(*channel, to);
            text.clone()
        }
        _ => panic!("Expected Message action"),
    }
}

#[test]
fn test_glist_empty() {
    let mut config = Config::default();
    config.servers.insert("lobby".to_string(), backend("127.0.0.1:25565"));
    let session_manager = SessionManager::new();
    let source = ProxyCommandSource {
        sender: player("TestPlayer", 9),
        config: &config,
        session_manager: &session_manager,
    };

    let dispatcher = CommandDispatcher::new();
    let res = done(dispatcher.execute_input("glist", &source));
    assert!(res.result.is_ok());

    let s = message_to(&res, 9);
    assert!(s.contains("[lobby] (0):"));
    assert!(s.contains("Total players online: 0"));
}

#[test]
fn test_glist_with_players() {
    let mut config = Config::default();
    config.servers.insert("lobby".to_string(), backend("127.0.0.1:25565"));
    config.servers.insert("survival".to_string(), backend("127.0.0.1:25566"));

    let mut session_manager = SessionManager::new();
    session_manager.register(session("Steve", "lobby", 1));
    session_manager.register(session("Alex", "survival", 2));

    let source = ProxyCommandSource {
        sender: player("Admin", 3),
        config: &config,
        session_manager: &session_manager,
    };

    let dispatcher = CommandDispatcher::new();
    let res = done(dispatcher.execute_input("glist", &source));
    assert!(res.result.is_ok());

    let s = message_to(&res, 3);
    assert!(s.contains("[lobby] (1): Steve"));
    assert!(s.contains("[survival] (1): Alex"));
    assert!(s.contains("Total players online: 2"));
}

#[test]
fn test_dispatcher_registration_and_dispatch() {
    let dispatcher = CommandDispatcher::new();
    assert!(dispatcher.has_command("send"));
    assert!(dispatcher.has_command("/send"));
    assert!(dispatcher.has_command("help"));
    assert!(dispatcher.has_command("list"));
    assert!(dispatcher.has_command("glist"));
    assert!(dispatcher.has_command("/glist"));
    assert!(!dispatcher.has_command("unknown"));

    let config = Config::default();
    let session_manager = SessionManager::new();
    let source = ProxyCommandSource {
        sender: CommandSender::Console,
        config: &config,
        session_manager: &session_manager,
    };

    let res = done(dispatcher.execute_input("help", &source));
    assert!(res.result.is_ok());

    let res_slash = done(dispatcher.execute_input("/help", &source));
    assert!(res_slash.result.is_ok());

    let res_unknown = done(dispatcher.execute_input("unknown_cmd", &source));
    assert!(res_unknown.result.is_err());
}

#[test]
fn test_suggest_various_inputs() {
    let dispatcher = CommandDispatcher::new();
    let config = Config::default();
    let session_manager = SessionManager::new();
    let source = ProxyCommandSource {
        sender: CommandSender::Console,
        config: &config,
        session_manager: &session_manager,
    };

    let names_empty = names(dispatcher.suggest_with_range("", &source));
    assert!(names_empty.contains(&"server".to_string()));
    assert!(names_empty.contains(&"send".to_string()));
    assert!(names_empty.contains(&"glist".to_string()));
    assert!(names_empty.contains(&"list".to_string()));
    assert!(names_empty.contains(&"help".to_string()));

    let names_s = names(dispatcher.suggest_with_range("s", &source));
    assert_eq!(names_s, vec!["send", "server"]);

    let names_ser = names(dispatcher.suggest_with_range("ser", &source));
    assert_eq!(names_ser, vec!["server"]);

    let names_server = names(dispatcher.suggest_with_range("server", &source));
    assert_eq!(names_server, vec!["server"]);

    let names_server_space = names(dispatcher.suggest_with_range("server ", &source));
    assert!(names_server_space.contains(&"lobby".to_string()));

    let names_help_space = names(dispatcher.suggest_with_range("help ", &source));
    assert!(names_help_space.contains(&"server".to_string()));
    assert!(names_help_space.contains(&"send".to_string()));
    assert!(names_help_space.contains(&"glist".to_string()));
    assert!(names_help_space.contains(&"list".to_string()));
    assert!(names_help_space.contains(&"help".to_string()));
}

#[test]
fn test_parse_address() {
    assert_eq!(
        parse_address("127.0.0.1:25565", Some(("127.0.0.1".to_string(), 25565))),
        Some(("127.0.0.1".to_string(), 25565))
    );
    assert_eq!(
        parse_address("mc.example.com:25577", None),
        Some(("mc.example.com".to_string(), 25577))
    );
    assert_eq!(parse_address("invalid", None), None);
}

#[test]
fn addresses_without_a_usable_port() {
    assert_eq!(parse_address("host:70000", None), None);
    assert_eq!(parse_address("host:", None), None);
    assert_eq!(parse_address("a:b:7", None), Some(("a:b".to_string(), 7)));
}

#[test]
fn test_send_command_execution() {
    let mut config = Config::default();
    config.servers.insert("survival".to_string(), backend("127.0.0.1:25567"));

    let mut session_manager = SessionManager::new();
    session_manager.register(session("Steve", "lobby", 1));

    let source = ProxyCommandSource {
        sender: CommandSender::Console,
        config: &config,
        session_manager: &session_manager,
    };

    let dispatcher = CommandDispatcher::new();
    let res = done(dispatcher.execute_input("send Steve survival", &source));
    assert!(res.result.is_ok());

    let to_steve: Vec<&PlayerAction> = res
        .effects
        .iter()
        .filter_map(|e| match e {
            Effect::Act { channel: 1, action } => Some(action),
            _ => None,
        })
        .collect();
    assert_eq!(
        to_steve.first(),
        Some(&&PlayerAction::Connect { server_name: "survival".to_string() })
    );

    // Player not in admin list is rejected
    let plain = Config::default();
    let empty = SessionManager::new();
    let non_admin_source = ProxyCommandSource {
        sender: player("RegularPlayer", 5),
        config: &plain,
        session_manager: &empty,
    };
    let res_denied = done(dispatcher.execute_input("send Steve survival", &non_admin_source));
    assert!(res_denied.result.is_err());
    assert!(res_denied.result.unwrap_err().contains("permission"));
}

#[test]
fn test_send_command_unknown_server() {
    let config = Config::default();
    let session_manager = SessionManager::new();
    let source = ProxyCommandSource {
        sender: CommandSender::Console,
        config: &config,
        session_manager: &session_manager,
    };

    let dispatcher = CommandDispatcher::new();
    let res = done(dispatcher.execute_input("send Steve nonexistent", &source));
    assert!(res.result.is_err());
    assert!(res.result.unwrap_err().contains("Unknown backend server"));
}

#[test]
fn test_send_command_offline_player() {
    let mut config = Config::default();
    config.servers.insert("survival".to_string(), backend("127.0.0.1:25567"));

    let session_manager = SessionManager::new();
    let source = ProxyCommandSource {
        sender: CommandSender::Console,
        config: &config,
        session_manager: &session_manager,
    };

    let dispatcher = CommandDispatcher::new();
    let res = done(dispatcher.execute_input("send Alex survival", &source));
    assert!(res.result.is_err());
    assert!(res.result.unwrap_err().contains("Player 'Alex' is not online"));
}

#[test]
fn test_send_command_suggestions() {
    let mut config = Config::default();
    config.servers.insert("survival".to_string(), backend("127.0.0.1:25567"));
    config.servers.insert("lobby".to_string(), backend("127.0.0.1:25565"));

    let mut session_manager = SessionManager::new();
    session_manager.register(session("Steve", "lobby", 1));

    let source = ProxyCommandSource {
        sender: CommandSender::Console,
        config: &config,
        session_manager: &session_manager,
    };

    let dispatcher = CommandDispatcher::new();
    let target_suggestions = dispatcher.suggest("send ", &source, None);
    let targets: Vec<&str> = target_suggestions.iter().map(|s| s.text.as_str()).collect();
    assert!(targets.contains(&"all"));
    assert!(targets.contains(&"Steve"));

    let server_suggestions = dispatcher.suggest("send Steve ", &source, None);
    let servers: Vec<&str> = server_suggestions.iter().map(|s| s.text.as_str()).collect();
    assert!(servers.contains(&"survival"));
    assert!(servers.contains(&"lobby"));
}

#[test]
fn test_server_command_execution() {
    let dispatcher = CommandDispatcher::new();
    let config = Config::default();
    let mut session_manager = SessionManager::new();
    session_manager.register(session("Steve", "lobby", 1));

    let source = ProxyCommandSource {
        sender: player("Steve", 1),
        config: &config,
        session_manager: &session_manager,
    };

    // 1. /server (no args) succeeds
    let res = done(dispatcher.execute_input("server", &source));
    assert!(res.result.is_ok());
    assert!(matches!(&res.effects[0], Effect::Act { action: PlayerAction::Message(_), .. }));

    // 2. /server survival requests connection to survival
    let res_switch = done(dispatcher.execute_input("server survival", &source));
    assert!(res_switch.result.is_ok());
    assert!(matches!(
        &res_switch.effects[0],
        Effect::Act { action: PlayerAction::Message(_), .. }
    ));
    assert_eq!(
        res_switch.effects[1],
        Effect::Act {
            channel: 1,
            action: PlayerAction::Connect { server_name: "survival".to_string() }
        }
    );

    // 3. /server lobby fails because player is already on lobby
    let res_already = done(dispatcher.execute_input("server lobby", &source));
    assert!(res_already.result.is_err());

    // 4. /server unknown fails
    let res_unknown = done(dispatcher.execute_input("server not_a_server", &source));
    assert!(res_unknown.result.is_err());
}

#[test]
fn send_all_reaches_everybody() {
    let config = Config::default();
    let mut session_manager = SessionManager::new();
    session_manager.register(session("Steve", "lobby", 1));
    session_manager.register(session("Alex", "survival", 2));
    let source = ProxyCommandSource {
        sender: CommandSender::Console,
        config: &config,
        session_manager: &session_manager,
    };
    let res = done(CommandDispatcher::new().execute_input("send ALL Survival", &source));
    assert!(res.result.is_ok());
    for channel in [1u64, 2] {
        assert!(res.effects.iter().any(|e| matches!(
            e,
            Effect::Act { channel: c, action: PlayerAction::Connect { server_name } }
                if *c == channel && server_name == "survival"
        )));
    }
}

#[test]
fn failures_are_told_to_the_sender() {
    let config = Config::default();
    let session_manager = SessionManager::new();
    let source = ProxyCommandSource {
        sender: player("Steve", 4),
        config: &config,
        session_manager: &session_manager,
    };
    let dispatcher = CommandDispatcher::default();
    let res = done(dispatcher.handle_command(&source, "nothing"));
    let why = res.result.clone().unwrap_err();
    assert_eq!(
        res.effects.last(),
        Some(&Effect::Act { channel: 4, action: PlayerAction::Message(why) })
    );
    let silent = done(dispatcher.execute_input("nothing", &source));
    assert!(silent.effects.is_empty());
}

#[test]
fn list_and_help_answer_the_sender() {
    let config = Config::default();
    let mut session_manager = SessionManager::new();
    session_manager.register(session("Steve", "lobby", 1));
    let source = ProxyCommandSource {
        sender: CommandSender::Console,
        config: &config,
        session_manager: &session_manager,
    };
    let dispatcher = CommandDispatcher::new();
    for (line, part) in [
        ("list", "Steve"),
        ("help", "/server [server]"),
        ("help glist", "Command /glist:"),
        ("help nonsense", "Unknown command."),
        ("server", "lobby"),
    ] {
        let res = done(dispatcher.execute_input(line, &source));
        assert!(res.result.is_ok(), "{}", line);
        match &res.effects[0] {
            Effect::Log(text) => assert!(text.contains(part), "{}", text),
            Effect::Act { .. } => panic!("the console was not answered"),
        }
    }
    let permitted = dispatcher.get_all_permitted_commands(&source);
    let known: Vec<&str> = permitted.iter().map(|p| p.0.as_str()).collect();
    assert_eq!(known, vec!["glist", "help", "list", "send", "server"]);
}

fn ban(dispatcher: &mut CommandDispatcher) {
    dispatcher.register(CommandEntry {
        name: "ban".to_string(),
        description: "Bans".to_string(),
        requirement: Some("plugin.ban".to_string()),
        plugin: Some(PluginCommand { plugin: 3, id: 17 }),
    });
}

#[test]
fn a_plugins_command_is_handed_to_it() {
    let mut dispatcher = CommandDispatcher::new();
    ban(&mut dispatcher);
    let config = Config::default();
    let mut session_manager = SessionManager::new();
    session_manager.register(session("Alex", "lobby", 0x1234));
    let admin = ProxyCommandSource {
        sender: player("Alex", 0x1234),
        config: &config,
        session_manager: &session_manager,
    };
    match dispatcher.execute_input("/ban  Steve  now", &admin) {
        Dispatched::AskPlugin { command, sender, args } => {
            assert_eq!(command, PluginCommand { plugin: 3, id: 17 });
            assert!(sender.is_player);
            assert_eq!(sender.name, "Alex");
            assert_eq!(
                sender.player_uuid.as_deref(),
                Some("00000000-0000-0000-0000-000000001234")
            );
            assert_eq!(args, vec!["Steve", "now"]);
        }
        Dispatched::Done(_) => panic!("the plugin was not asked"),
    }
    match dispatcher.suggest_command("/ban St", &admin) {
        Suggested::AskPlugin { start, length, args, .. } => {
            assert_eq!((start, length), (4, 2));
            assert_eq!(args, vec!["St"]);
        }
        Suggested::Ready(_) => panic!("the plugin was not asked"),
    }
    let offers = dispatcher.suggest("/ban St", &admin, Some(vec!["Steve".to_string()]));
    assert_eq!(offers.len(), 1);
    assert_eq!(offers[0].text, "Steve");
}

#[test]
fn a_command_that_may_not_be_used_is_unknown() {
    let mut dispatcher = CommandDispatcher::new();
    ban(&mut dispatcher);
    let config = Config::default();
    let session_manager = SessionManager::new();
    let nobody = ProxyCommandSource {
        sender: player("Steve", 1),
        config: &config,
        session_manager: &session_manager,
    };
    assert!(dispatcher.has_command("BAN"));
    let refused = done(dispatcher.execute_input("ban Alex", &nobody));
    let unknown = done(dispatcher.execute_input("bun Alex", &nobody));
    assert_eq!(refused, unknown);
    assert!(!names(dispatcher.suggest_command("b", &nobody)).contains(&"ban".to_string()));
    assert!(ready(dispatcher.suggest_command("ban A", &nobody)).offers.is_empty());
}

#[test]
fn a_plugins_answer_is_passed_on() {
    let sender = player("Steve", 8);
    let ok = on_plugin_command(&sender, Ok(Ok(5)));
    assert_eq!(ok, Outcome { effects: vec![], result: Ok(5) });
    let refused = on_plugin_command(&sender, Ok(Err("no".to_string())));
    assert_eq!(refused.result, Ok(0));
    assert_eq!(message_to(&refused, 8), "§cError: no");
    let failed = on_plugin_command(&CommandSender::Console, Err("trap".to_string()));
    assert_eq!(failed.result, Ok(0));
    assert_eq!(
        failed.effects,
        vec![Effect::Log("§cPlugin command error: trap".to_string())]
    );
    assert!(on_plugin_suggestions(1, 2, None).offers.is_empty());
}
