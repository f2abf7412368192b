//! The proxy as a whole: what it is made of, and whom it lets in.
use vstd::prelude::*;
use vstd::string::*;

use crate::auth::KeyStore;
use crate::backend::router::Router;
use crate::command::dispatcher::{built_in_entries, CommandDispatcher};
use crate::config::{copy_opt, BackendConfig, BackendModel, Config, MotdConfig, RoutingConfig};
use crate::crypto::rsa_public_of;
use crate::network::address::SocketAddress;
use crate::network::proxy_protocol::{ProxyError, ProxyHeaderResult};
use crate::plugin::api::EventType;
use crate::plugin::events::RegisteredEventHandler;
use crate::plugin::PluginManager;
use crate::session::{SessionManager, SessionModel};
use crate::status::handler::StatusHandler;
use crate::status::icon::{IconModel, StatusIconManager};
use crate::table::{bound, Table};
use crate::text::{copy_texts, opt_text, texts, trim, trimmed};

verus! {

broadcast use vstd::seq::group_seq_axioms;

// ---------------------------------------------------------------------------
// Parts
// ---------------------------------------------------------------------------

/// The icons of the servers that have one.
pub open spec fn icons_of(servers: Seq<(Seq<char>, BackendModel)>) -> Seq<(Seq<char>, Seq<char>)>
    decreases servers.len(),
{
    if servers.len() == 0 {
        Seq::empty()
    } else {
        let before = icons_of(servers.drop_last());
        match servers.last().1.icon_path {
            Some(p) => bound(before, servers.last().0, p),
            None => before,
        }
    }
}

pub fn server_icons(servers: &Table<BackendConfig>) -> (r: Table<String>)
    ensures
        r@ == icons_of(servers@),
{
    let ghost all = servers@;
    let mut r: Table<String> = Table::new();
    let mut i: usize = 0;
    assert(all.take(0) == Seq::<(Seq<char>, BackendModel)>::empty());
    while i < servers.len()
        invariant
            i <= servers@.len(),
            all == servers@,
            r@ == icons_of(all.take(i as int)),
        decreases servers@.len() - i,
    {
        assert(all.take(i + 1).drop_last() == all.take(i as int));
        assert(all.take(i + 1).last() == all[i as int]);
        let name = servers.key_at(i).clone();
        match &servers.value_at(i).icon_path {
            Some(p) => r.insert(name, p.clone()),
            None => {},
        }
        i = i + 1;
    }
    assert(all.take(all.len() as int) == all);
    r
}

/// Two sections say the same.
pub open spec fn same_motd(a: MotdConfig, b: MotdConfig) -> bool {
    &&& a.line1@ == b.line1@
    &&& a.line2@ == b.line2@
    &&& a.max_players == b.max_players
    &&& a.version_name@ == b.version_name@
    &&& a.protocol_version == b.protocol_version
    &&& texts(a.sample_players@) == texts(b.sample_players@)
    &&& opt_text(a.icon_path) == opt_text(b.icon_path)
    &&& a.show_sample_players == b.show_sample_players
}

fn copy_motd(m: &MotdConfig) -> (r: MotdConfig)
    ensures
        same_motd(r, *m),
{
    MotdConfig {
        line1: m.line1.clone(),
        line2: m.line2.clone(),
        max_players: m.max_players,
        version_name: m.version_name.clone(),
        protocol_version: m.protocol_version,
        sample_players: copy_texts(&m.sample_players),
        icon_path: copy_opt(&m.icon_path),
        show_sample_players: m.show_sample_players,
    }
}

pub open spec fn same_routing(a: RoutingConfig, b: RoutingConfig) -> bool {
    &&& a.default_server@ == b.default_server@
    &&& opt_text(a.fallback_server) == opt_text(b.fallback_server)
    &&& a.forced_hosts@ == b.forced_hosts@
    &&& a.try_fallback_on_connect_failure == b.try_fallback_on_connect_failure
}

fn copy_routing(c: &RoutingConfig) -> (r: RoutingConfig)
    ensures
        same_routing(r, *c),
{
    RoutingConfig {
        default_server: c.default_server.clone(),
        fallback_server: copy_opt(&c.fallback_server),
        forced_hosts: c.forced_hosts.copied(),
        try_fallback_on_connect_failure: c.try_fallback_on_connect_failure,
    }
}

pub struct ProxyServer {
    pub config: Config,
    pub keystore: KeyStore,
    pub icon_manager: StatusIconManager,
    pub status_handler: StatusHandler,
    pub router: Router,
    /// How many players are being served
    pub online_players: usize,
    pub session_manager: SessionManager,
    pub command_dispatcher: CommandDispatcher,
    pub plugin_manager: PluginManager,
}

impl ProxyServer {
    /// A proxy without players. It is not made only where no key can be had.
    pub fn new(config: Config) -> (r: Result<Self, String>)
        ensures
            r matches Ok(p) ==> {
                &&& p.config == config
                &&& rsa_public_of(p.keystore.private()) == Ok::<Seq<u8>, Seq<char>>(
                    p.keystore.public(),
                )
                &&& p.parts_fit()
            },
    {
        ProxyServer::on_keys(config, KeyStore::new())
    }

    /// The keys have been made, or have not: then there is no proxy, for the same reason.
    pub fn on_keys(config: Config, keys: Result<KeyStore, String>) -> (r: Result<Self, String>)
        ensures
            match keys {
                Ok(keystore) => r matches Ok(p) && p.config == config && p.keystore == keystore
                    && p.parts_fit(),
                Err(e) => r == Err::<Self, String>(e),
            },
    {
        match keys {
            Ok(keystore) => Ok(ProxyServer::with_keys(config, keystore)),
            Err(e) => Err(e),
        }
    }

    /// Every part has been made from the configuration, and none has been used.
    pub open spec fn parts_fit(&self) -> bool {
        let c = self.config;
        &&& same_motd(self.status_handler.motd, c.motd)
        &&& self.status_handler.servers@ == c.servers@
        &&& self.status_handler.forced_hosts@ == c.routing.forced_hosts@
        &&& opt_text(self.icon_manager.default_icon_path) == (match opt_text(c.motd.icon_path) {
            Some(p) => if trimmed(p).len() > 0 {
                Some(p)
            } else {
                None
            },
            None => None,
        })
        &&& self.icon_manager.server_icons@ == icons_of(c.servers@)
        &&& self.icon_manager.forced_hosts@ == c.routing.forced_hosts@
        &&& self.icon_manager.default_server@ == c.routing.default_server@
        &&& self.icon_manager.cache@ == Seq::<(Seq<char>, IconModel)>::empty()
        &&& same_routing(self.router.routing, c.routing)
        &&& self.router.servers@ == c.servers@
        &&& self.online_players == 0
        &&& self.session_manager@ == Seq::<(Seq<char>, SessionModel)>::empty()
        &&& self.command_dispatcher@ == built_in_entries()
        &&& self.plugin_manager.plugins_dir@ == c.plugins.plugin_dir@
        &&& self.plugin_manager.loaded_plugins@ == Seq::<u64>::empty()
        &&& self.plugin_manager.event_handlers@ == Seq::<
            (EventType, RegisteredEventHandler),
        >::empty()
    }

    /// A proxy with the given keys.
    pub fn with_keys(config: Config, keystore: KeyStore) -> (r: Self)
        ensures
            r.config == config,
            r.keystore == keystore,
            r.parts_fit(),
    {
        let icon_manager = StatusIconManager::new(
            copy_opt(&config.motd.icon_path),
            server_icons(&config.servers),
            config.routing.forced_hosts.copied(),
            config.routing.default_server.clone(),
        );
        let status_handler = StatusHandler::new(
            copy_motd(&config.motd),
            config.servers.copied(),
            config.routing.forced_hosts.copied(),
        );
        let router = Router::new(copy_routing(&config.routing), config.servers.copied());
        let plugin_manager = PluginManager::new(config.plugins.plugin_dir.clone());
        ProxyServer {
            config,
            keystore,
            icon_manager,
            status_handler,
            router,
            online_players: 0,
            session_manager: SessionManager::new(),
            command_dispatcher: CommandDispatcher::new(),
            plugin_manager,
        }
    }
}

// ---------------------------------------------------------------------------
// Admission
// ---------------------------------------------------------------------------

/// What is done with a connection that has come in.
#[derive(Debug, PartialEq, Eq)]
pub enum AdmissionStep<B = Vec<u8>, E = ProxyError> {
    /// Read the header that the load balancer has put before the client's bytes
    ReadHeader,
    /// Ask the rate limiter about the client
    CheckRate { client: SocketAddress, leftover: B },
    /// Serve the client
    Serve { client: SocketAddress, leftover: B },
    /// Close it: its header is bad
    DropHeader(E),
    /// Close it: its address has opened too many
    DropRate { client: SocketAddress },
}

pub type AdmissionModel = AdmissionStep<Seq<u8>, ProxyError>;

impl View for AdmissionStep {
    type V = AdmissionModel;

    open spec fn view(&self) -> AdmissionModel {
        match self {
            AdmissionStep::ReadHeader => AdmissionStep::ReadHeader,
            AdmissionStep::CheckRate { client, leftover } => AdmissionStep::CheckRate {
                client: *client,
                leftover: leftover@,
            },
            AdmissionStep::Serve { client, leftover } => AdmissionStep::Serve {
                client: *client,
                leftover: leftover@,
            },
            AdmissionStep::DropHeader(e) => AdmissionStep::DropHeader(*e),
            AdmissionStep::DropRate { client } => AdmissionStep::DropRate { client: *client },
        }
    }
}

/// A connection has come in.
pub fn on_accept(proxy_protocol: bool, peer: SocketAddress) -> (r: AdmissionStep)
    ensures
        r@ == (if proxy_protocol {
            AdmissionModel::ReadHeader
        } else {
            AdmissionModel::CheckRate { client: peer, leftover: Seq::empty() }
        }),
{
    if proxy_protocol {
        AdmissionStep::ReadHeader
    } else {
        let leftover: Vec<u8> = Vec::new();
        assert(leftover@ =~= Seq::empty());
        AdmissionStep::CheckRate { client: peer, leftover }
    }
}

/// Its header has been read: the client is who the header names.
pub fn on_header(header: Result<ProxyHeaderResult, ProxyError>) -> (r: AdmissionStep)
    ensures
        r@ == (match header {
            Ok(h) => AdmissionModel::CheckRate {
                client: h.client_addr,
                leftover: h.leftover_bytes@,
            },
            Err(e) => AdmissionModel::DropHeader(e),
        }),
{
    match header {
        Ok(h) => AdmissionStep::CheckRate {
            client: h.client_addr,
            leftover: h.leftover_bytes,
        },
        Err(e) => AdmissionStep::DropHeader(e),
    }
}

/// The rate limiter has answered.
pub fn on_rate(allowed: bool, client: SocketAddress, leftover: Vec<u8>) -> (r: AdmissionStep)
    ensures
        r@ == (if allowed {
            AdmissionModel::Serve { client, leftover: leftover@ }
        } else {
            AdmissionModel::DropRate { client }
        }),
{
    if allowed {
        AdmissionStep::Serve { client, leftover }
    } else {
        AdmissionStep::DropRate { client }
    }
}

// ---------------------------------------------------------------------------
// Console and shutdown
// ---------------------------------------------------------------------------

/// The command on a line of the console, if there is one.
pub fn console_command(line: &str) -> (r: Option<String>)
    ensures
        opt_text(r) == (if trimmed(line@).len() > 0 {
            Some(trimmed(line@))
        } else {
            None
        }),
{
    let t = trim(line);
    if t.as_str().unicode_len() > 0 {
        Some(t)
    } else {
        None
    }
}

/// How many seconds the proxy waits for open connections when it stops: one at least.
pub fn shutdown_timeout(configured: u64) -> (r: u64)
    ensures
        r == (if configured < 1 {
            1
        } else {
            configured
        }),
{
    if configured < 1 {
        1
    } else {
        configured
    }
}

/// A connection is taken as it comes, or its header is read first where the proxy stands behind
/// another one.
pub proof fn law_accepted_connections(proxy_protocol: bool, peer: SocketAddress, r: AdmissionStep)
    requires
        call_ensures(on_accept, (proxy_protocol, peer), r),
    ensures
        proxy_protocol <==> r@ is ReadHeader,
        !proxy_protocol ==> (r@ matches AdmissionStep::CheckRate { client, leftover } && client
            == peer && leftover.len() == 0),
{
}

/// The client is whom a good header names, with the bytes behind it; a bad one closes the
/// connection.
pub proof fn law_headers_name_the_client(
    header: Result<ProxyHeaderResult, ProxyError>,
    r: AdmissionStep,
)
    requires
        call_ensures(on_header, (header,), r),
    ensures
        header matches Ok(h) ==> (r@ matches AdmissionStep::CheckRate { client, leftover } && client
            == h.client_addr && leftover == h.leftover_bytes@),
        header matches Err(e) ==> (r@ matches AdmissionStep::DropHeader(f) && f == e),
{
}

/// A client that keeps to its rate is served, with what it has sent so far; any other is dropped.
pub proof fn law_rates_decide(
    allowed: bool,
    client: SocketAddress,
    leftover: Vec<u8>,
    r: AdmissionStep,
)
    requires
        call_ensures(on_rate, (allowed, client, leftover), r),
    ensures
        allowed ==> (r@ matches AdmissionStep::Serve { client: c, leftover: l } && c == client && l
            == leftover@),
        !allowed ==> (r@ matches AdmissionStep::DropRate { client: c } && c == client),
{
}

/// A line of the console is a command unless it is blank; the wait for open connections is the
/// configured one, but at least a second.
pub proof fn law_console_lines_and_waits(line: &str, c: Option<String>, n: u64, w: u64)
    requires
        call_ensures(console_command, (line,), c),
        call_ensures(shutdown_timeout, (n,), w),
    ensures
        c is None <==> trimmed(line@).len() == 0,
        c matches Some(t) ==> t@ == trimmed(line@),
        n >= 1 ==> w == n,
        n == 0 ==> w == 1,
{
}

/// A server's icon is listed under its name exactly where it has one.
pub proof fn law_icons_of_servers(
    servers: Seq<(Seq<char>, BackendModel)>,
    name: Seq<char>,
    path: Seq<char>,
)
    requires
        crate::table::distinct_keys(servers),
    ensures
        crate::table::lookup(icons_of(servers), name) == Some(path) <==> exists|i: int|
            0 <= i < servers.len() && (#[trigger] servers[i]).0 == name && servers[i].1.icon_path
                == Some(path),
    decreases servers.len(),
{
    if servers.len() > 0 {
        let front = servers.drop_last();
        let last = servers.last();
        assert forall|i: int, j: int| 0 <= i < j < front.len() implies #[trigger] front[i].0
            != #[trigger] front[j].0 by {
            assert(servers[i].0 != servers[j].0);
        }
        law_icons_of_servers(front, name, path);
        assert(servers[servers.len() - 1] == last);
        if let Some(p) = last.1.icon_path {
            crate::table::law_bound_lookup(icons_of(front), last.0, p, name);
        }
        if exists|i: int|
            0 <= i < servers.len() && (#[trigger] servers[i]).0 == name && servers[i].1.icon_path
                == Some(path) {
            let i = choose|i: int|
                0 <= i < servers.len() && (#[trigger] servers[i]).0 == name
                    && servers[i].1.icon_path == Some(path);
            if i < front.len() {
                assert(front[i] == servers[i]);
                assert(servers[i].0 != servers[servers.len() - 1].0);
            }
        }
        if exists|i: int|
            0 <= i < front.len() && (#[trigger] front[i]).0 == name && front[i].1.icon_path
                == Some(path) {
            let i = choose|i: int|
                0 <= i < front.len() && (#[trigger] front[i]).0 == name && front[i].1.icon_path
                    == Some(path);
            assert(servers[i] == front[i]);
            assert(servers[i].0 != servers[servers.len() - 1].0);
        }
    }
}

/// Router, status and icons go by the configured servers and routing, and plugins are looked for in
/// the configured directory. Nobody is on the proxy yet.
pub proof fn law_proxy_goes_by_its_configuration(p: ProxyServer, host: Seq<char>)
    requires
        p.parts_fit(),
    ensures
        p.router.routed(host) == crate::backend::router::route(
            p.config.servers@,
            p.config.routing.forced_hosts@,
            p.config.routing.default_server@,
            opt_text(p.config.routing.fallback_server),
            host,
        ),
        p.status_handler.description(Some(host)) == crate::status::handler::motd_for(
            p.config.motd.line1@,
            p.config.motd.line2@,
            p.config.servers@,
            p.config.routing.forced_hosts@,
            Some(host),
        ),
        p.status_handler.motd.max_players == p.config.motd.max_players,
        p.status_handler.motd.version_name@ == p.config.motd.version_name@,
        p.icon_manager.server_icons@ == icons_of(p.config.servers@),
        p.icon_manager.default_server@ == p.config.routing.default_server@,
        p.plugin_manager.plugins_dir@ == p.config.plugins.plugin_dir@,
        p.plugin_manager.loaded_plugins@.len() == 0,
        p.plugin_manager.event_handlers@.len() == 0,
        p.session_manager@.len() == 0,
        p.online_players == 0,
        p.command_dispatcher@ == built_in_entries(),
{
}

/// A proxy is made from the configuration and the keys that it was given, or not at all.
pub proof fn law_proxy_is_made_from_what_it_was_given(
    config: Config,
    keys: KeyStore,
    why: String,
    p: ProxyServer,
    a: Result<ProxyServer, String>,
    b: Result<ProxyServer, String>,
)
    requires
        call_ensures(ProxyServer::with_keys, (config, keys), p),
        call_ensures(ProxyServer::on_keys, (config, Ok::<KeyStore, String>(keys)), a),
        call_ensures(ProxyServer::on_keys, (config, Err::<KeyStore, String>(why)), b),
    ensures
        p.config == config && p.keystore == keys && p.parts_fit(),
        a matches Ok(q) && q.config == config && q.keystore == keys && q.parts_fit(),
        b == Err::<ProxyServer, String>(why),
{
}

} // verus!
