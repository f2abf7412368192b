use vine::client::{answer_ping, asks_for_status};
use vine::config::{BackendConfig, ForwardingMode, MotdConfig};
use vine::status::icon::{FileState, IconStep, PNG_SIGNATURE};
use vine::status::{StatusHandler, StatusIcon, StatusIconManager};
use vine::table::Table;
use vine::version::ClientVersion;

const V_26_2: ClientVersion = ClientVersion {
    protocol: 776,
    known: true,
    has_command_tree: true,
    has_configuration: true,
};

fn create_test_png(w: u32, h: u32) -> Vec<u8> {
    let mut bytes = Vec::new();
    bytes.extend_from_slice(&PNG_SIGNATURE);
    bytes.extend_from_slice(&13u32.to_be_bytes());
    bytes.extend_from_slice(b"IHDR");
    bytes.extend_from_slice(&w.to_be_bytes());
    bytes.extend_from_slice(&h.to_be_bytes());
    bytes.extend_from_slice(&[8, 6, 0, 0, 0]);
    bytes.extend_from_slice(&[0, 0, 0, 0]);
    bytes
}

#[test]
fn test_valid_png_parsing() {
    let png = create_test_png(64, 64);
    let icon = StatusIcon::from_bytes(png, "test.png".to_string(), None).unwrap();
    assert_eq!(icon.width, 64);
    assert_eq!(icon.height, 64);
    assert!(icon.data_uri.starts_with("data:image/png;base64,"));
}

#[test]
fn test_invalid_signature() {
    let bad_bytes = vec![0u8; 32];
    let res = StatusIcon::from_bytes(bad_bytes, "test.png".to_string(), None);
    assert!(res.is_err());
}

#[test]
fn icons_are_encoded_and_refused() {
    let mut png = create_test_png(64, 1);
    png.truncate(24);
    let icon = StatusIcon::from_bytes(png.clone(), "a.png".to_string(), Some(7)).unwrap();
    assert_eq!(
        icon.data_uri,
        "data:image/png;base64,iVBORw0KGgoAAAANSUhEUgAAAEAAAAAB"
    );
    assert_eq!((icon.width, icon.height, icon.last_modified), (64, 1, Some(7)));
    let short = StatusIcon::from_bytes(png[..23].to_vec(), "a.png".to_string(), None);
    assert_eq!(short.unwrap_err(), "Icon file 'a.png' is too small (23 bytes)");
    let mut other = png.clone();
    other[0] = 0;
    assert_eq!(
        StatusIcon::from_bytes(other, "a.png".to_string(), None).unwrap_err(),
        "Icon file 'a.png' does not have a valid PNG signature (expected PNG format)"
    );
    png[12] = b'X';
    assert_eq!(
        StatusIcon::from_bytes(png, "a.png".to_string(), None).unwrap_err(),
        "Icon file 'a.png' is missing valid IHDR chunk"
    );
}

#[test]
fn padding_fills_up_the_last_characters() {
    for (extra, tail) in [(1, "/w=="), (2, "//8="), (3, "////")] {
        let mut png = create_test_png(0, 0);
        png.truncate(24);
        png.extend_from_slice(&vec![0xff; extra]);
        let icon = StatusIcon::from_bytes(png, "a.png".to_string(), None).unwrap();
        assert!(icon.data_uri.ends_with(tail));
    }
}

#[test]
fn test_icon_manager_resolution() {
    let mut server_icons = Table::new();
    server_icons.insert("survival".to_string(), "survival.png".to_string());
    let mut forced_hosts = Table::new();
    forced_hosts.insert("mc.survival.com".to_string(), "survival".to_string());

    let manager = StatusIconManager::new(
        Some("default.png".to_string()),
        server_icons,
        forced_hosts,
        "lobby".to_string(),
    );

    let path = manager.resolve_icon_path(Some("mc.survival.com")).unwrap();
    assert_eq!(path, "survival.png");

    let def_path = manager.resolve_icon_path(Some("other.com")).unwrap();
    assert_eq!(def_path, "default.png");

    assert_eq!(
        manager.resolve_icon_path(Some(" survival :25565")).as_deref(),
        Some("survival.png")
    );
    assert_eq!(manager.preload_paths(), vec!["default.png", "survival.png"]);
}

#[test]
fn test_icon_manager_default_none() {
    let manager = StatusIconManager::new(None, Table::new(), Table::new(), "lobby".to_string());

    assert!(manager.resolve_icon_path(None).is_none());
    assert!(manager.resolve_icon_path(Some("play.example.com")).is_none());
    assert_eq!(manager.get_icon_for_host(None, FileState::Missing), IconStep::Nothing);

    let blank = StatusIconManager::new(
        Some("  ".to_string()),
        Table::new(),
        Table::new(),
        "lobby".to_string(),
    );
    assert!(blank.resolve_icon_path(None).is_none());
}

#[test]
fn the_default_servers_icon_comes_before_the_default_icon() {
    let mut server_icons = Table::new();
    server_icons.insert("lobby".to_string(), "lobby.png".to_string());
    let manager = StatusIconManager::new(
        Some("default.png".to_string()),
        server_icons,
        Table::new(),
        "lobby".to_string(),
    );
    assert_eq!(manager.resolve_icon_path(None).as_deref(), Some("lobby.png"));
}

#[test]
fn an_icon_is_kept_until_its_file_changes() {
    let mut manager = StatusIconManager::new(
        Some("default.png".to_string()),
        Table::new(),
        Table::new(),
        "lobby".to_string(),
    );
    let read = IconStep::Read("default.png".to_string());
    assert_eq!(manager.get_icon_for_host(None, FileState::Changed(1)), read);
    assert_eq!(manager.on_read("default.png", None, None), None);
    assert_eq!(manager.on_read("default.png", Some(vec![1, 2, 3]), Some(1)), None);
    let uri = manager.on_read("default.png", Some(create_test_png(64, 64)), Some(1)).unwrap();
    let kept = IconStep::Kept(uri);
    assert_eq!(manager.get_icon_for_host(None, FileState::Changed(1)), kept);
    assert_eq!(manager.get_icon_for_host(None, FileState::Missing), kept);
    assert_eq!(manager.get_icon_for_host(None, FileState::Changed(2)), read);
    assert_eq!(manager.get_icon_for_host(None, FileState::Undated), read);
}

fn motd(line1: &str, line2: &str) -> MotdConfig {
    MotdConfig {
        line1: line1.to_string(),
        line2: line2.to_string(),
        max_players: 50,
        version_name: "Vine Proxy".to_string(),
        protocol_version: 776,
        sample_players: vec!["SamplePlayer".to_string()],
        icon_path: None,
        show_sample_players: true,
    }
}

#[test]
fn test_status_response_with_icon_and_virtual_hosts() {
    let mut servers = Table::new();
    servers.insert(
        "survival".to_string(),
        BackendConfig {
            address: "127.0.0.1:25567".to_string(),
            forwarding: ForwardingMode::Plain,
            secret: None,
            icon_path: None,
            motd_line1: Some("Survival Line 1".to_string()),
            motd_line2: Some("Survival Line 2".to_string()),
        },
    );

    let mut forced_hosts = Table::new();
    forced_hosts.insert("mc.survival.com".to_string(), "survival".to_string());

    let mut icon_mgr = StatusIconManager::new(
        Some("vine_test_status_icon.png".to_string()),
        Table::new(),
        forced_hosts.copied(),
        "lobby".to_string(),
    );
    let path = icon_mgr.resolve_icon_path(None).unwrap();
    let uri = icon_mgr.on_read(&path, Some(create_test_png(64, 64)), Some(1));

    let handler =
        StatusHandler::new(motd("Global Line 1", "Global Line 2"), servers, forced_hosts);

    let global_json = handler.build_status_response(V_26_2, None, 5, uri.as_deref());
    assert!(global_json.contains("Global Line 1\\nGlobal Line 2"));
    assert!(global_json.contains("\"online\":5"));
    assert!(global_json.contains("\"favicon\":\"data:image/png;base64,"));

    let vhost_json =
        handler.build_status_response(V_26_2, Some("mc.survival.com"), 5, uri.as_deref());
    assert!(vhost_json.contains("Survival Line 1\\nSurvival Line 2"));
}

#[test]
fn test_status_response_default_without_icon() {
    let mut m = motd("Vine Proxy", "No Icon");
    m.max_players = 20;
    m.version_name = "Vine".to_string();
    m.sample_players = Vec::new();
    m.show_sample_players = false;
    let handler = StatusHandler::new(m, Table::new(), Table::new());

    let json = handler.build_status_response(V_26_2, None, 0, None);
    assert!(!json.contains("favicon"));
}

#[test]
fn the_whole_status_is_json() {
    let handler = StatusHandler::new(motd("A \"q\" \\", "B\t\u{1}\u{e9}"), Table::new(), Table::new());
    let unknown = ClientVersion { protocol: -1, known: false, ..V_26_2 };
    let json = handler.build_status_response(unknown, None, 2, Some("uri"));
    assert_eq!(
        json,
        "{\"version\":{\"name\":\"Vine Proxy\",\"protocol\":776},\"players\":{\"max\":50,\
         \"online\":2,\"sample\":[{\"name\":\"SamplePlayer\",\
         \"id\":\"00000000-0000-0000-0000-000000000000\"}]},\"description\":\
         {\"text\":\"A \\\"q\\\" \\\\\\nB\\t\\u0001\u{e9}\"},\"enforceSecureChat\":false,\
         \"favicon\":\"uri\"}"
    );
    let value: serde_json::Value = serde_json::from_str(&json).unwrap();
    assert_eq!(value["description"]["text"], "A \"q\" \\\nB\t\u{1}\u{e9}");
    let known = ClientVersion { protocol: 47, ..V_26_2 };
    assert!(handler.build_status_response(known, None, 0, None).contains("\"protocol\":47"));
}

#[test]
fn one_line_of_a_server_is_filled_up_from_the_proxys() {
    let mut servers = Table::new();
    servers.insert(
        "lobby".to_string(),
        BackendConfig {
            address: "127.0.0.1:1".to_string(),
            forwarding: ForwardingMode::Plain,
            secret: None,
            icon_path: None,
            motd_line1: None,
            motd_line2: Some("two".to_string()),
        },
    );
    let handler = StatusHandler::new(motd("g1", "g2"), servers, Table::new());
    assert_eq!(handler.resolve_motd_text(Some("lobby:25565")), "g1\ntwo");
    assert_eq!(handler.resolve_motd_text(Some("elsewhere")), "g1\ng2");
    assert_eq!(handler.resolve_motd_text(None), "g1\ng2");
}

#[test]
fn packets_of_the_status_phase() {
    let handler = StatusHandler::new(motd("a", "b"), Table::new(), Table::new());
    let json = handler.build_status_response(V_26_2, None, 0, None);
    let body = handler.create_status_packet(V_26_2, None, 0, None).unwrap();
    assert!(body.ends_with(json.as_bytes()));
    assert_eq!(body.len(), json.len() + 2);
    assert!(asks_for_status(0));
    assert!(!asks_for_status(1));
    for n in [0i64, 1, -1, i64::MIN, i64::MAX] {
        let ping = n.to_be_bytes();
        assert_eq!(answer_ping(1, &ping), Some(n));
        assert_eq!(StatusHandler::create_pong_packet(n), ping.to_vec());
    }
    assert_eq!(answer_ping(0, &[0; 8]), None);
    assert_eq!(answer_ping(1, &[0; 7]), None);
}
