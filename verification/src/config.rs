//! Configuration of the proxy and its default values.
use vstd::prelude::*;
use vstd::string::*;

use crate::bedrock::BedrockConfig;
pub use crate::permissions::{GroupConfig, PermissionsConfig, UserPermissionConfig};
use crate::table::{Copied, Table};
use crate::text::{opt_text, owned, texts};

verus! {

broadcast use vstd::seq::group_seq_axioms;

pub fn default_true() -> (r: bool)
    ensures
        r,
{
    true
}

pub fn default_compression_level() -> (r: i32)
    ensures
        r == 6,
{
    6
}

pub fn default_shutdown_timeout() -> (r: u64)
    ensures
        r == 10,
{
    10
}

pub fn default_tcp_keepalive() -> (r: u64)
    ensures
        r == 60,
{
    60
}

pub fn default_handshake_timeout() -> (r: u64)
    ensures
        r == 10,
{
    10
}

pub fn default_status_timeout() -> (r: u64)
    ensures
        r == 5,
{
    5
}

pub fn default_login_timeout() -> (r: u64)
    ensures
        r == 15,
{
    15
}

pub fn default_backend_connect_timeout() -> (r: u64)
    ensures
        r == 5,
{
    5
}

pub fn default_backend_login_timeout() -> (r: u64)
    ensures
        r == 15,
{
    15
}

pub fn default_backend_retries() -> (r: u32)
    ensures
        r == 2,
{
    2
}

pub fn default_listen_backlog() -> (r: u32)
    ensures
        r == 1024,
{
    1024
}

pub fn default_plugins_dir() -> (r: String)
    ensures
        r@ == "./plugins"@,
{
    owned("./plugins")
}

pub fn default_telemetry_interval() -> (r: u64)
    ensures
        r == 300,
{
    300
}

pub fn default_telemetry_endpoint() -> (r: String)
    ensures
        r@ == "https://market.pumpkinmc.org/api/v1/rest/telemetry/heartbeat"@,
{
    owned("https://market.pumpkinmc.org/api/v1/rest/telemetry/heartbeat")
}

#[derive(Debug)]
pub struct Config {
    pub server: ServerConfig,
    pub network: NetworkConfig,
    pub motd: MotdConfig,
    pub security: SecurityConfig,
    pub routing: RoutingConfig,
    pub servers: Table<BackendConfig>,
    pub telemetry: TelemetryConfig,
    pub bedrock: BedrockConfig,
    pub permissions: PermissionsConfig,
    pub plugins: PluginConfig,
}

#[derive(Debug, Clone)]
pub struct PluginConfig {
    pub enabled: bool,
    pub plugin_dir: String,
}

impl Default for PluginConfig {
    fn default() -> (r: Self)
        ensures
            r.enabled,
            r.plugin_dir@ == "./plugins"@,
    {
        PluginConfig { enabled: true, plugin_dir: default_plugins_dir() }
    }
}

#[derive(Debug, Clone)]
pub struct ServerConfig {
    /// Address and port for the proxy to listen on
    pub bind_address: String,
    /// Whether to verify player accounts with Mojang session servers
    pub online_mode: bool,
    /// Send player IP to Mojang during session authentication to prevent proxy hijacking
    pub prevent_proxy_connections: bool,
    /// Packet compression threshold (-1 to disable, e.g. 256 for standard compression)
    pub compression_threshold: i32,
    /// Compression level (1 = fastest, 6 = default balance, 9 = best compression)
    pub compression_level: i32,
    /// Graceful shutdown timeout in seconds to wait for active connections to close
    pub shutdown_timeout_secs: u64,
}

#[derive(Debug, Clone)]
pub struct NetworkConfig {
    /// Enable TCP_NODELAY on client and backend sockets
    pub tcp_nodelay: bool,
    /// TCP keepalive interval in seconds on client and backend sockets (0 to disable)
    pub tcp_keepalive_secs: u64,
    /// Timeout in seconds to wait for the initial client handshake packet
    pub client_handshake_timeout_secs: u64,
    /// Timeout in seconds to wait for client status and ping packets
    pub client_status_timeout_secs: u64,
    /// Timeout in seconds to wait for client login and encryption packets
    pub client_login_timeout_secs: u64,
    /// Timeout in seconds when connecting to a backend server
    pub backend_connect_timeout_secs: u64,
    /// Timeout in seconds for backend socket reads during login
    pub backend_login_timeout_secs: u64,
    /// Number of attempts when connecting to a backend server
    pub backend_connect_retry_attempts: u32,
    /// Optional TCP receive buffer size in bytes
    pub recv_buffer_size: Option<usize>,
    /// Optional TCP send buffer size in bytes
    pub send_buffer_size: Option<usize>,
    /// TCP listen backlog queue size
    pub listen_backlog: u32,
    /// Accept the PROXY protocol (v1 and v2) from upstream reverse proxies
    pub proxy_protocol: bool,
    /// Log incoming server list status pings in the console
    pub log_pings: bool,
}

impl NetworkConfig {
    pub open spec fn is_default(&self) -> bool {
        &&& self.tcp_nodelay
        &&& self.tcp_keepalive_secs == 60
        &&& self.client_handshake_timeout_secs == 10
        &&& self.client_status_timeout_secs == 5
        &&& self.client_login_timeout_secs == 15
        &&& self.backend_connect_timeout_secs == 5
        &&& self.backend_login_timeout_secs == 15
        &&& self.backend_connect_retry_attempts == 2
        &&& self.recv_buffer_size is None
        &&& self.send_buffer_size is None
        &&& self.listen_backlog == 1024
        &&& !self.proxy_protocol
        &&& !self.log_pings
    }
}

impl Default for NetworkConfig {
    fn default() -> (r: Self)
        ensures
            r.is_default(),
    {
        NetworkConfig {
            tcp_nodelay: default_true(),
            tcp_keepalive_secs: default_tcp_keepalive(),
            client_handshake_timeout_secs: default_handshake_timeout(),
            client_status_timeout_secs: default_status_timeout(),
            client_login_timeout_secs: default_login_timeout(),
            backend_connect_timeout_secs: default_backend_connect_timeout(),
            backend_login_timeout_secs: default_backend_login_timeout(),
            backend_connect_retry_attempts: default_backend_retries(),
            recv_buffer_size: None,
            send_buffer_size: None,
            listen_backlog: default_listen_backlog(),
            proxy_protocol: false,
            log_pings: false,
        }
    }
}

#[derive(Debug, Clone)]
pub struct MotdConfig {
    /// Line 1 of the server list ping description
    pub line1: String,
    /// Line 2 of the server list ping description
    pub line2: String,
    /// Maximum players shown in the server list ping
    pub max_players: u32,
    /// Version display string
    pub version_name: String,
    /// Protocol version reported to clients
    pub protocol_version: i32,
    /// Sample player list shown on hover in server list
    pub sample_players: Vec<String>,
    /// Optional path to a 64x64 PNG file for the server list icon
    pub icon_path: Option<String>,
    /// Whether to show the player sample list on hover in the multiplayer menu
    pub show_sample_players: bool,
}

#[derive(Debug, Clone)]
pub struct SecurityConfig {
    /// Enable connection rate limiting per IP
    pub rate_limit_enabled: bool,
    /// Maximum new TCP connections per second per IP
    pub max_connections_per_sec: u32,
    /// Burst allowance for new connections
    pub connection_burst: u32,
    /// Maximum packets per second from a single client before being kicked for flooding
    pub max_packets_per_sec: u32,
    /// Maximum raw packet size allowed in bytes
    pub max_packet_size: usize,
    /// Enforce strict Minecraft username validation
    pub validate_usernames: bool,
}

#[derive(Debug)]
pub struct RoutingConfig {
    /// Default backend server name to connect to
    pub default_server: String,
    /// Fallback server if default server is offline
    pub fallback_server: Option<String>,
    /// Virtual host routing: maps hostname to backend server name
    pub forced_hosts: Table<String>,
    /// Automatically try fallback server if connection to target server fails
    pub try_fallback_on_connect_failure: bool,
}

#[derive(Debug, Clone, Copy, PartialEq, Eq, Structural)]
pub enum ForwardingMode {
    /// Plain connection without forwarding info
    Plain,
    /// BungeeCord IP forwarding
    BungeeCord,
    /// Velocity modern forwarding with an HMAC-SHA256 secret
    Velocity,
    /// Vine modern forwarding with Ed25519 signatures, timestamp and challenge nonce
    Vine,
}

#[derive(Debug, PartialEq, Eq)]
pub struct BackendConfig<S = String> {
    /// Address of backend server (e.g. "127.0.0.1:25566")
    pub address: S,
    /// Forwarding mode to use when connecting to this backend
    pub forwarding: ForwardingMode,
    /// Secret key required by the Velocity and Vine forwarding modes
    pub secret: Option<S>,
    /// Optional custom 64x64 PNG status icon path for this backend / virtual host
    pub icon_path: Option<S>,
    /// Optional custom MOTD line 1 for this backend / virtual host
    pub motd_line1: Option<S>,
    /// Optional custom MOTD line 2 for this backend / virtual host
    pub motd_line2: Option<S>,
}

pub type BackendModel = BackendConfig<Seq<char>>;

impl View for BackendConfig {
    type V = BackendModel;

    open spec fn view(&self) -> BackendModel {
        BackendConfig {
            address: self.address@,
            forwarding: self.forwarding,
            secret: opt_text(self.secret),
            icon_path: opt_text(self.icon_path),
            motd_line1: opt_text(self.motd_line1),
            motd_line2: opt_text(self.motd_line2),
        }
    }
}

pub fn copy_opt(s: &Option<String>) -> (r: Option<String>)
    ensures
        opt_text(r) == opt_text(*s),
{
    match s {
        Some(t) => Some(t.clone()),
        None => None,
    }
}

impl Clone for BackendConfig {
    fn clone(&self) -> (r: Self)
        ensures
            r@ == self@,
    {
        BackendConfig {
            address: self.address.clone(),
            forwarding: self.forwarding,
            secret: copy_opt(&self.secret),
            icon_path: copy_opt(&self.icon_path),
            motd_line1: copy_opt(&self.motd_line1),
            motd_line2: copy_opt(&self.motd_line2),
        }
    }
}

impl Copied for BackendConfig {
    fn copied(&self) -> (r: Self) {
        self.clone()
    }
}

/// Telemetry configuration options.
#[derive(Debug, Clone)]
pub struct TelemetryConfig {
    /// Whether anonymous telemetry is enabled
    pub enabled: bool,
    /// Telemetry backend ingestion endpoint
    pub endpoint: String,
    /// Heartbeat interval in seconds
    pub interval_secs: u64,
    /// Whether to show this proxy in the public community directory
    pub public: bool,
    /// Public server name displayed on the analytics dashboard if `public` is set
    pub server_name: Option<String>,
}

impl TelemetryConfig {
    pub open spec fn is_default(&self) -> bool {
        &&& self.enabled
        &&& self.endpoint@ == "https://market.pumpkinmc.org/api/v1/rest/telemetry/heartbeat"@
        &&& self.interval_secs == 300
        &&& !self.public
        &&& self.server_name is None
    }
}

impl Default for TelemetryConfig {
    fn default() -> (r: Self)
        ensures
            r.is_default(),
    {
        TelemetryConfig {
            enabled: true,
            endpoint: default_telemetry_endpoint(),
            interval_secs: default_telemetry_interval(),
            public: false,
            server_name: None,
        }
    }
}

// ---------------------------------------------------------------------------
// Defaults of the whole
// ---------------------------------------------------------------------------

pub open spec fn plain_backend(
    address: Seq<char>,
    forwarding: ForwardingMode,
    secret: Option<Seq<char>>,
) -> BackendModel {
    BackendConfig {
        address,
        forwarding,
        secret,
        icon_path: None,
        motd_line1: None,
        motd_line2: None,
    }
}

/// The three backends of a fresh configuration.
pub open spec fn default_servers() -> Seq<(Seq<char>, BackendModel)> {
    seq![
        (
            "lobby"@,
            plain_backend(
                "127.0.0.1:25566"@,
                ForwardingMode::Velocity,
                Some("vine-velocity-secret-change-me"@),
            ),
        ),
        (
            "survival"@,
            BackendConfig {
                motd_line1: Some("§b§lVine Survival §7» §fWelcome back!"@),
                motd_line2: Some("§7Custom world • Economy • Land Claims"@),
                ..plain_backend("127.0.0.1:25567"@, ForwardingMode::BungeeCord, None)
            },
        ),
        ("vanilla"@, plain_backend("127.0.0.1:25568"@, ForwardingMode::Plain, None)),
    ]
}

impl Config {
    pub open spec fn is_default(&self) -> bool {
        &&& self.server.bind_address@ == "0.0.0.0:25565"@
        &&& self.server.online_mode
        &&& self.server.prevent_proxy_connections
        &&& self.server.compression_threshold == 256
        &&& self.server.compression_level == 6
        &&& self.server.shutdown_timeout_secs == 10
        &&& self.network.is_default()
        &&& self.motd.line1@ == "§a§lVine §7» §fHigh-Performance Minecraft Proxy"@
        &&& self.motd.line2@ == "§7Multi-version support §8• §e1.7.x - 26.x"@
        &&& self.motd.max_players == 100
        &&& self.motd.version_name@ == "Vine 1.7.x - 26.x"@
        &&& self.motd.protocol_version == 776
        &&& texts(self.motd.sample_players@) == seq![
            "§aVine Multi-Version Proxy"@,
            "§7Secure • Fast • Reliable"@,
        ]
        &&& self.motd.icon_path is None
        &&& self.motd.show_sample_players
        &&& self.security.rate_limit_enabled
        &&& self.security.max_connections_per_sec == 5
        &&& self.security.connection_burst == 10
        &&& self.security.max_packets_per_sec == 500
        &&& self.security.max_packet_size == 2 * 1024 * 1024
        &&& self.security.validate_usernames
        &&& self.routing.default_server@ == "lobby"@
        &&& opt_text(self.routing.fallback_server) == Some("survival"@)
        &&& self.routing.forced_hosts@ == seq![
            ("survival.example.com"@, "survival"@),
            ("vanilla.example.com"@, "vanilla"@),
        ]
        &&& self.routing.try_fallback_on_connect_failure
        &&& self.servers@ == default_servers()
        &&& self.telemetry.is_default()
        &&& self.bedrock.is_default()
        &&& self.permissions@ == crate::permissions::default_permissions()
        &&& self.plugins.enabled
        &&& self.plugins.plugin_dir@ == "./plugins"@
    }
}

fn fresh_servers() -> (r: Table<BackendConfig>)
    ensures
        r@ == default_servers(),
{
    let mut servers: Table<BackendConfig> = Table::new();
    servers.insert(
        owned("lobby"),
        BackendConfig {
            address: owned("127.0.0.1:25566"),
            forwarding: ForwardingMode::Velocity,
            secret: Some(owned("vine-velocity-secret-change-me")),
            icon_path: None,
            motd_line1: None,
            motd_line2: None,
        },
    );
    servers.insert(
        owned("survival"),
        BackendConfig {
            address: owned("127.0.0.1:25567"),
            forwarding: ForwardingMode::BungeeCord,
            secret: None,
            icon_path: None,
            motd_line1: Some(owned("§b§lVine Survival §7» §fWelcome back!")),
            motd_line2: Some(owned("§7Custom world • Economy • Land Claims")),
        },
    );
    servers.insert(
        owned("vanilla"),
        BackendConfig {
            address: owned("127.0.0.1:25568"),
            forwarding: ForwardingMode::Plain,
            secret: None,
            icon_path: None,
            motd_line1: None,
            motd_line2: None,
        },
    );
    proof {
        reveal_strlit("lobby");
        reveal_strlit("survival");
        reveal_strlit("vanilla");
        assert("lobby"@.len() == 5 && "survival"@.len() == 8 && "vanilla"@.len() == 7);
        let d = default_servers();
        let none = Seq::<(Seq<char>, BackendModel)>::empty();
        crate::table::lemma_bound_new(none, d[0].0, d[0].1);
        crate::table::lemma_bound_new(none.push(d[0]), d[1].0, d[1].1);
        crate::table::lemma_bound_new(none.push(d[0]).push(d[1]), d[2].0, d[2].1);
        assert(servers@ == default_servers());
    }
    servers
}

fn fresh_hosts() -> (r: Table<String>)
    ensures
        r@ == seq![
            ("survival.example.com"@, "survival"@),
            ("vanilla.example.com"@, "vanilla"@),
        ],
{
    let mut hosts: Table<String> = Table::new();
    hosts.insert(owned("survival.example.com"), owned("survival"));
    hosts.insert(owned("vanilla.example.com"), owned("vanilla"));
    proof {
        reveal_strlit("survival.example.com");
        reveal_strlit("vanilla.example.com");
        assert("survival.example.com"@.len() == 20 && "vanilla.example.com"@.len() == 19);
        let none = Seq::<(Seq<char>, Seq<char>)>::empty();
        let a = ("survival.example.com"@, "survival"@);
        let b = ("vanilla.example.com"@, "vanilla"@);
        crate::table::lemma_bound_new(none, a.0, a.1);
        crate::table::lemma_bound_new(none.push(a), b.0, b.1);
        assert(hosts@ == seq![a, b]);
    }
    hosts
}

impl Default for Config {
    fn default() -> (r: Self)
        ensures
            r.is_default(),
    {
        let mut sample: Vec<String> = Vec::new();
        sample.push(owned("§aVine Multi-Version Proxy"));
        sample.push(owned("§7Secure • Fast • Reliable"));
        assert(texts(sample@) == seq![
            "§aVine Multi-Version Proxy"@,
            "§7Secure • Fast • Reliable"@,
        ]);
        Config {
            server: ServerConfig {
                bind_address: owned("0.0.0.0:25565"),
                online_mode: true,
                prevent_proxy_connections: true,
                compression_threshold: 256,
                compression_level: default_compression_level(),
                shutdown_timeout_secs: default_shutdown_timeout(),
            },
            network: NetworkConfig::default(),
            motd: MotdConfig {
                line1: owned("§a§lVine §7» §fHigh-Performance Minecraft Proxy"),
                line2: owned("§7Multi-version support §8• §e1.7.x - 26.x"),
                max_players: 100,
                version_name: owned("Vine 1.7.x - 26.x"),
                protocol_version: 776,
                sample_players: sample,
                icon_path: None,
                show_sample_players: true,
            },
            security: SecurityConfig {
                rate_limit_enabled: true,
                max_connections_per_sec: 5,
                connection_burst: 10,
                max_packets_per_sec: 500,
                max_packet_size: 2 * 1024 * 1024,
                validate_usernames: true,
            },
            routing: RoutingConfig {
                default_server: owned("lobby"),
                fallback_server: Some(owned("survival")),
                forced_hosts: fresh_hosts(),
                try_fallback_on_connect_failure: true,
            },
            servers: fresh_servers(),
            telemetry: TelemetryConfig::default(),
            bedrock: BedrockConfig::default(),
            permissions: PermissionsConfig::default(),
            plugins: PluginConfig::default(),
        }
    }
}

/// A fresh configuration holds together: the default server, the fallback and every server that a
/// host is forced to are configured, and a server that is told of players under a secret has one.
/// Players are verified, their names and rates are checked.
pub proof fn law_fresh_configuration_holds_together(c: Config, i: int)
    requires
        c.is_default(),
    ensures
        ({
            let keys = crate::table::keys_of(c.servers@);
            &&& keys.contains(c.routing.default_server@)
            &&& c.routing.fallback_server matches Some(f) && keys.contains(f@) && f@
                != c.routing.default_server@
            &&& c.routing.try_fallback_on_connect_failure
            &&& 0 <= i < c.routing.forced_hosts@.len() ==> keys.contains(
                c.routing.forced_hosts@[i].1,
            )
            &&& 0 <= i < c.servers@.len() && (c.servers@[i].1.forwarding is Velocity
                || c.servers@[i].1.forwarding is Vine) ==> (c.servers@[i].1.secret matches Some(s)
                && s.len() > 0)
            &&& c.server.online_mode && c.security.validate_usernames
                && c.security.rate_limit_enabled
            &&& crate::table::distinct_keys(c.servers@)
        }),
{
    let keys = crate::table::keys_of(c.servers@);
    let d = default_servers();
    assert(keys[0] == "lobby"@ && keys[1] == "survival"@ && keys[2] == "vanilla"@);
    reveal_strlit("lobby");
    reveal_strlit("survival");
    reveal_strlit("vanilla");
    reveal_strlit("vine-velocity-secret-change-me");
    assert("lobby"@.len() == 5 && "survival"@.len() == 8 && "vanilla"@.len() == 7);
    assert(d[0].0 == "lobby"@ && d[1].0 == "survival"@ && d[2].0 == "vanilla"@);
}

} // verus!
