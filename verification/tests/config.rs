use vine::bedrock::BedrockConfig;
use vine::config::{
    default_backend_connect_timeout, default_backend_login_timeout, default_backend_retries,
    default_compression_level, default_handshake_timeout, default_listen_backlog,
    default_login_timeout, default_plugins_dir, default_shutdown_timeout, default_status_timeout,
    default_tcp_keepalive, default_telemetry_endpoint, default_telemetry_interval, default_true,
    Config, ForwardingMode, NetworkConfig, PluginConfig, TelemetryConfig,
};

#[test]
fn test_telemetry_config_defaults() {
    let default_config = TelemetryConfig::default();
    assert!(default_config.enabled);
    assert_eq!(
        default_config.endpoint,
        "https://market.pumpkinmc.org/api/v1/rest/telemetry/heartbeat"
    );
    assert_eq!(default_config.interval_secs, 300);
    assert!(!default_config.public);
    assert_eq!(default_config.server_name, None);
}

#[test]
fn default_values() {
    assert!(default_true());
    assert_eq!(default_compression_level(), 6);
    assert_eq!(default_shutdown_timeout(), 10);
    assert_eq!(default_tcp_keepalive(), 60);
    assert_eq!(default_handshake_timeout(), 10);
    assert_eq!(default_status_timeout(), 5);
    assert_eq!(default_login_timeout(), 15);
    assert_eq!(default_backend_connect_timeout(), 5);
    assert_eq!(default_backend_login_timeout(), 15);
    assert_eq!(default_backend_retries(), 2);
    assert_eq!(default_listen_backlog(), 1024);
    assert_eq!(default_plugins_dir(), "./plugins");
    assert_eq!(default_telemetry_interval(), 300);
    assert_eq!(
        default_telemetry_endpoint(),
        "https://market.pumpkinmc.org/api/v1/rest/telemetry/heartbeat"
    );
}

#[test]
fn default_configuration() {
    let c = Config::default();
    assert_eq!(c.routing.default_server, "lobby");
    assert_eq!(c.routing.fallback_server.as_deref(), Some("survival"));
    assert!(c.routing.try_fallback_on_connect_failure);
    assert!(c.servers.contains_key("lobby"));
    assert!(c.servers.contains_key("survival"));
    assert_eq!(c.security.max_connections_per_sec, 5);
    assert_eq!(c.security.connection_burst, 10);
    assert_eq!(c.security.max_packets_per_sec, 500);
    assert_eq!(c.security.max_packet_size, 2 * 1024 * 1024);
    assert!(c.security.validate_usernames);
    assert!(c.plugins.enabled == PluginConfig::default().enabled);
    assert_eq!(c.plugins.plugin_dir, "./plugins");
    assert!(c.network.tcp_nodelay == NetworkConfig::default().tcp_nodelay);
    assert_eq!(c.bedrock.bind_address, BedrockConfig::default().bind_address);
    assert_ne!(ForwardingMode::Plain, ForwardingMode::Velocity);
}
