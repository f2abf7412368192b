//! Which backend server a player is sent to.
use vstd::prelude::*;
use vstd::string::*;

use crate::config::{BackendConfig, BackendModel, RoutingConfig};
use crate::table::{lookup, Table};
use crate::text::opt_text;

verus! {

broadcast use vstd::seq::group_seq_axioms;

pub struct Router {
    pub routing: RoutingConfig,
    pub servers: Table<BackendConfig>,
}

pub type Servers = Seq<(Seq<char>, BackendModel)>;

/// A configured server by name.
pub open spec fn named(servers: Servers, name: Seq<char>) -> Option<(Seq<char>, BackendModel)> {
    match lookup(servers, name) {
        Some(cfg) => Some((name, cfg)),
        None => None,
    }
}

pub open spec fn or_else<X>(first: Option<X>, second: Option<X>) -> Option<X> {
    match first {
        Some(x) => Some(x),
        None => second,
    }
}

/// The server for a virtual host: the one it is forced to, else the default, else the
/// fallback, else the first one configured; names of servers that are not configured are
/// passed over.
pub open spec fn route(
    servers: Servers,
    hosts: Seq<(Seq<char>, Seq<char>)>,
    default_server: Seq<char>,
    fallback: Option<Seq<char>>,
    virtual_host: Seq<char>,
) -> Option<(Seq<char>, BackendModel)> {
    let forced = match lookup(hosts, virtual_host) {
        Some(name) => named(servers, name),
        None => None,
    };
    let spare = match fallback {
        Some(name) => named(servers, name),
        None => None,
    };
    let first = if servers.len() > 0 {
        Some(servers[0])
    } else {
        None
    };
    or_else(forced, or_else(named(servers, default_server), or_else(spare, first)))
}

fn server_named(servers: &Table<BackendConfig>, name: &String) -> (r: Option<
    (String, BackendConfig),
>)
    ensures
        r is Some <==> named(servers@, name@) is Some,
        r matches Some((n, c)) ==> named(servers@, name@) == Some((n@, c@)),
{
    match servers.get(name.as_str()) {
        Some(cfg) => Some((name.clone(), cfg.clone())),
        None => None,
    }
}

impl Router {
    pub fn new(routing: RoutingConfig, servers: Table<BackendConfig>) -> (r: Self)
        ensures
            r.routing == routing,
            r.servers == servers,
    {
        Router { routing, servers }
    }

    pub open spec fn routed(&self, virtual_host: Seq<char>) -> Option<(Seq<char>, BackendModel)> {
        route(
            self.servers@,
            self.routing.forced_hosts@,
            self.routing.default_server@,
            opt_text(self.routing.fallback_server),
            virtual_host,
        )
    }

    /// Resolves which backend server to connect to based on virtual host or default.
    pub fn resolve_server(&self, virtual_host: &str) -> (r: Option<(String, BackendConfig)>)
        ensures
            r is Some <==> self.routed(virtual_host@) is Some,
            r matches Some((n, c)) ==> self.routed(virtual_host@) == Some((n@, c@)),
    {
        match self.routing.forced_hosts.get(virtual_host) {
            Some(name) => {
                let found = server_named(&self.servers, name);
                if found.is_some() {
                    return found;
                }
            },
            None => {},
        }
        let found = server_named(&self.servers, &self.routing.default_server);
        if found.is_some() {
            return found;
        }
        match &self.routing.fallback_server {
            Some(name) => {
                let found = server_named(&self.servers, name);
                if found.is_some() {
                    return found;
                }
            },
            None => {},
        }
        if self.servers.len() > 0 {
            Some((self.servers.key_at(0).clone(), self.servers.value_at(0).clone()))
        } else {
            None
        }
    }
}

/// A server is found exactly when one is configured, and what is found is configured.
pub proof fn law_route_is_configured(
    servers: Servers,
    hosts: Seq<(Seq<char>, Seq<char>)>,
    default_server: Seq<char>,
    fallback: Option<Seq<char>>,
    virtual_host: Seq<char>,
)
    ensures
        route(servers, hosts, default_server, fallback, virtual_host) is Some <==> servers.len()
            > 0,
        route(servers, hosts, default_server, fallback, virtual_host) matches Some(found)
            ==> servers.contains(found),
{
    crate::table::lemma_lookup_some(servers, default_server);
    if let Some(name) = fallback {
        crate::table::lemma_lookup_some(servers, name);
    }
    if let Some(name) = lookup(hosts, virtual_host) {
        crate::table::lemma_lookup_some(servers, name);
    }
    if servers.len() > 0 {
        assert(servers.contains(servers[0]));
    }
}

/// A host goes to the server that it is forced to, if that one is configured; else to the default,
/// else to the fallback, else to the first of the table; each under its own name and with its own
/// configuration.
pub proof fn law_route_goes_by_precedence(
    servers: Servers,
    hosts: Seq<(Seq<char>, Seq<char>)>,
    default_server: Seq<char>,
    fallback: Option<Seq<char>>,
    host: Seq<char>,
    forced: Seq<char>,
    config: BackendModel,
)
    requires
        crate::table::distinct_keys(servers),
        crate::table::distinct_keys(hosts),
    ensures
        ({
            let r = route(servers, hosts, default_server, fallback, host);
            let keys = crate::table::keys_of(servers);
            let no_force = forall|f: Seq<char>|
                hosts.contains((host, f)) ==> !(#[trigger] keys.contains(f));
            &&& hosts.contains((host, forced)) && servers.contains((forced, config)) ==> r == Some(
                (forced, config),
            )
            &&& no_force && servers.contains((default_server, config)) ==> r == Some(
                (default_server, config),
            )
            &&& no_force && !keys.contains(default_server) && fallback is Some && servers.contains(
                (fallback->Some_0, config),
            ) ==> r == Some((fallback->Some_0, config))
            &&& no_force && !keys.contains(default_server) && (fallback is None || !keys.contains(
                fallback->Some_0,
            )) && servers.len() > 0 ==> r == Some(servers[0])
        }),
{
    crate::table::lemma_lookup_some(servers, default_server);
    if servers.contains((default_server, config)) {
        lemma_only_entry(servers, default_server, config);
    }
    if servers.contains((forced, config)) {
        lemma_only_entry(servers, forced, config);
    }
    if hosts.contains((host, forced)) {
        lemma_only_entry(hosts, host, forced);
    }
    if let Some(name) = fallback {
        crate::table::lemma_lookup_some(servers, name);
        if servers.contains((name, config)) {
            lemma_only_entry(servers, name, config);
        }
    }
    crate::table::lemma_lookup_some(hosts, host);
    if let Some(f) = lookup(hosts, host) {
        crate::table::lemma_lookup_some(servers, f);
        assert(hosts.contains((host, f)));
    }
}

proof fn lemma_only_entry<X>(s: Seq<(Seq<char>, X)>, k: Seq<char>, v: X)
    requires
        crate::table::distinct_keys(s),
        s.contains((k, v)),
    ensures
        lookup(s, k) == Some(v),
{
    let i = choose|i: int| 0 <= i < s.len() && s[i] == (k, v);
    assert forall|j: int| 0 <= j < i implies s[j].0 != k by {
        assert(s[i].0 == k);
    }
    crate::table::lemma_lookup_at(s, k, i);
}

/// The router goes by its own table and its own routing.
pub proof fn law_router_goes_by_its_configuration(r: Router, host: Seq<char>)
    ensures
        r.routed(host) == route(
            r.servers@,
            r.routing.forced_hosts@,
            r.routing.default_server@,
            opt_text(r.routing.fallback_server),
            host,
        ),
{
}

/// The router resolves a host as its precedence says.
pub proof fn law_router_resolves(r: Router, host: &str, x: Option<(String, BackendConfig)>)
    requires
        call_ensures(Router::resolve_server, (&r, host), x),
    ensures
        x is Some <==> r.servers@.len() > 0,
        x matches Some((n, c)) ==> r.routed(host@) == Some((n@, c@)),
{
    law_route_is_configured(
        r.servers@,
        r.routing.forced_hosts@,
        r.routing.default_server@,
        opt_text(r.routing.fallback_server),
        host@,
    );
}

} // verus!
