use vine::auth::KeyStore;
use vine::config::Config;
use vine::network::address::{IpAddress, SocketAddress};
use vine::network::proxy_protocol::ProxyError;
use vine::network::ProxyHeaderResult;
use vine::proxy::{
    console_command, on_accept, on_header, on_rate, server_icons, shutdown_timeout, AdmissionStep,
    ProxyServer,
};

const PEER: SocketAddress = SocketAddress { ip: IpAddress::V4(1), port: 2 };

#[test]
fn a_proxy_is_made_from_its_configuration() {
    let mut config = Config::default();
    config.motd.icon_path = Some("icon.png".to_string());
    config.motd.line1 = "hello".to_string();
    config.plugins.plugin_dir = "./extensions".to_string();
    let proxy = ProxyServer::new(config).unwrap();
    assert_eq!(proxy.session_manager.count(), 0);
    assert!(proxy.command_dispatcher.has_command("server"));
    assert_eq!(proxy.router.resolve_server("x").unwrap().0, "lobby");
    assert!(proxy.status_handler.resolve_motd_text(None).starts_with("hello\n"));
    assert_eq!(proxy.icon_manager.resolve_icon_path(None).as_deref(), Some("icon.png"));
    assert!(!proxy.keystore.public_key_der().is_empty());
    assert_eq!(proxy.online_players, 0);
    assert_eq!(proxy.plugin_manager.plugins_dir, "./extensions");
    assert!(proxy.plugin_manager.loaded_plugins.is_empty());
}

#[test]
fn without_keys_there_is_no_proxy() {
    let keys = KeyStore::new().unwrap();
    let public = keys.public_key_der().to_vec();
    let proxy = ProxyServer::on_keys(Config::default(), Ok(keys));
    assert_eq!(proxy.unwrap().keystore.public_key_der(), public.as_slice());
    let refused = ProxyServer::on_keys(Config::default(), Err("no keys".to_string()));
    assert_eq!(refused.err().as_deref(), Some("no keys"));
}

#[test]
fn icons_of_servers() {
    let mut config = Config::default();
    assert_eq!(server_icons(&config.servers).len(), 0);
    let mut lobby = config.servers.get("lobby").unwrap().clone();
    lobby.icon_path = Some("lobby.png".to_string());
    config.servers.insert("lobby".to_string(), lobby);
    let icons = server_icons(&config.servers);
    assert_eq!(icons.len(), 1);
    assert_eq!(icons.get("lobby").map(|s| s.as_str()), Some("lobby.png"));
}

#[test]
fn connections_are_admitted() {
    assert_eq!(on_accept(true, PEER), AdmissionStep::ReadHeader);
    assert_eq!(
        on_accept(false, PEER),
        AdmissionStep::CheckRate { client: PEER, leftover: vec![] }
    );
    let client = SocketAddress { ip: IpAddress::V6(3), port: 4 };
    assert_eq!(
        on_header(Ok(ProxyHeaderResult { client_addr: client, leftover_bytes: vec![1] })),
        AdmissionStep::CheckRate { client, leftover: vec![1] }
    );
    assert_eq!(
        on_header(Err(ProxyError::UnknownHeader)),
        AdmissionStep::DropHeader(ProxyError::UnknownHeader)
    );
    assert_eq!(
        on_rate(true, client, vec![1]),
        AdmissionStep::Serve { client, leftover: vec![1] }
    );
    assert_eq!(on_rate(false, client, vec![1]), AdmissionStep::DropRate { client });
}

#[test]
fn console_and_shutdown() {
    assert_eq!(console_command("  glist \r\n").as_deref(), Some("glist"));
    assert_eq!(console_command(" \n"), None);
    assert_eq!(shutdown_timeout(0), 1);
    assert_eq!(shutdown_timeout(10), 10);
}
