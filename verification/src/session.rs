//! The register of players on the proxy.
use vstd::prelude::*;
use vstd::string::*;

use crate::plugin::api::copy_bytes;
use crate::table::{
    bound, distinct_keys, law_bound_distinct, law_bound_lookup, law_unbound_lookup,
    lemma_lookup_some, lookup, opt_view, unbound, values_of, views, Table,
};
use crate::text::{lower, owned, same_ignoring_case, to_lower};

verus! {

broadcast use vstd::seq::group_seq_axioms;

/// Actions that can be dispatched to an active player's connection.
#[derive(Debug, PartialEq, Eq)]
pub enum PlayerAction<S = String, B = Vec<u8>> {
    /// Connect the player to a backend server within the proxy
    Connect { server_name: S },
    /// Transfer the player to a host and port
    Transfer { host: S, port: u16 },
    /// Send a system chat message to the player
    Message(S),
    /// Disconnect the player with a reason
    Disconnect(S),
    /// Send the player a message on a plugin channel
    PluginMessage { channel: S, data: B },
}

pub type PlayerActionModel = PlayerAction<Seq<char>, Seq<u8>>;

impl View for PlayerAction {
    type V = PlayerActionModel;

    open spec fn view(&self) -> PlayerActionModel {
        match self {
            PlayerAction::Connect { server_name } => PlayerAction::Connect {
                server_name: server_name@,
            },
            PlayerAction::Transfer { host, port } => PlayerAction::Transfer {
                host: host@,
                port: *port,
            },
            PlayerAction::Message(t) => PlayerAction::Message(t@),
            PlayerAction::Disconnect(t) => PlayerAction::Disconnect(t@),
            PlayerAction::PluginMessage { channel, data } => PlayerAction::PluginMessage {
                channel: channel@,
                data: data@,
            },
        }
    }
}

impl Clone for PlayerAction {
    fn clone(&self) -> (r: Self)
        ensures
            r@ == self@,
    {
        match self {
            PlayerAction::Connect { server_name } => PlayerAction::Connect {
                server_name: server_name.clone(),
            },
            PlayerAction::Transfer { host, port } => PlayerAction::Transfer {
                host: host.clone(),
                port: *port,
            },
            PlayerAction::Message(t) => PlayerAction::Message(t.clone()),
            PlayerAction::Disconnect(t) => PlayerAction::Disconnect(t.clone()),
            PlayerAction::PluginMessage { channel, data } => PlayerAction::PluginMessage {
                channel: channel.clone(),
                data: copy_bytes(data),
            },
        }
    }
}

/// An active player on the proxy.
#[derive(Debug, PartialEq, Eq)]
pub struct PlayerSession<S = String> {
    pub username: S,
    pub uuid: u128,
    pub current_server: S,
    pub client_ip: S,
    pub protocol_version: u32,
    /// Where actions for the player are sent
    pub channel: u64,
}

pub type SessionModel = PlayerSession<Seq<char>>;

impl View for PlayerSession {
    type V = SessionModel;

    open spec fn view(&self) -> SessionModel {
        PlayerSession {
            username: self.username@,
            uuid: self.uuid,
            current_server: self.current_server@,
            client_ip: self.client_ip@,
            protocol_version: self.protocol_version,
            channel: self.channel,
        }
    }
}

impl Clone for PlayerSession {
    fn clone(&self) -> (r: Self)
        ensures
            r@ == self@,
    {
        PlayerSession {
            username: self.username.clone(),
            uuid: self.uuid,
            current_server: self.current_server.clone(),
            client_ip: self.client_ip.clone(),
            protocol_version: self.protocol_version,
            channel: self.channel,
        }
    }
}

/// Registry of connected player sessions, by lower-case name.
#[derive(Debug)]
pub struct SessionManager {
    sessions: Table<PlayerSession>,
}

pub type Sessions = Seq<(Seq<char>, SessionModel)>;

impl View for SessionManager {
    type V = Sessions;

    closed spec fn view(&self) -> Sessions {
        self.sessions@
    }
}

/// Every session stands under its player's lower-case name, and no name stands twice.
pub open spec fn well_kept(s: Sessions) -> bool {
    &&& distinct_keys(s)
    &&& forall|i: int| 0 <= i < s.len() ==> (#[trigger] s[i]).0 == lower(s[i].1.username)
}

/// The session of a player, whatever case their name is written in.
pub open spec fn session_named(s: Sessions, username: Seq<char>) -> Option<SessionModel> {
    lookup(s, lower(username))
}

pub open spec fn registered(s: Sessions, session: SessionModel) -> Sessions {
    bound(s, lower(session.username), session)
}

pub open spec fn unregistered(s: Sessions, username: Seq<char>) -> Sessions {
    unbound(s, lower(username))
}

pub open spec fn server_updated(s: Sessions, username: Seq<char>, server: Seq<char>) -> Sessions {
    match session_named(s, username) {
        Some(session) => bound(
            s,
            lower(username),
            PlayerSession { current_server: server, ..session },
        ),
        None => s,
    }
}

impl SessionManager {
    pub fn new() -> (r: Self)
        ensures
            r@ == Seq::<(Seq<char>, SessionModel)>::empty(),
            well_kept(r@),
    {
        SessionManager { sessions: Table::new() }
    }

    /// Registers a new active player session.
    pub fn register(&mut self, session: PlayerSession)
        ensures
            final(self)@ == registered(old(self)@, session@),
            well_kept(old(self)@) ==> well_kept(final(self)@),
    {
        proof {
            if well_kept(self@) {
                law_register_keeps_order(self@, session@);
            }
        }
        let key = to_lower(session.username.as_str());
        self.sessions.insert(key, session);
    }

    /// Unregisters an active session by username.
    pub fn unregister(&mut self, username: &str) -> (r: Option<PlayerSession>)
        ensures
            final(self)@ == unregistered(old(self)@, username@),
            opt_view(r) == session_named(old(self)@, username@),
            well_kept(old(self)@) ==> well_kept(final(self)@),
    {
        let key = to_lower(username);
        proof {
            lemma_unbound_from(self@, key@);
        }
        self.sessions.remove(key.as_str())
    }

    /// Updates the current server of an active session.
    pub fn update_server(&mut self, username: &str, new_server: &str)
        ensures
            final(self)@ == server_updated(old(self)@, username@, new_server@),
            well_kept(old(self)@) ==> well_kept(final(self)@),
    {
        let key = to_lower(username);
        let updated = match self.sessions.get(key.as_str()) {
            Some(session) => {
                let mut next = session.clone();
                next.current_server = owned(new_server);
                Some(next)
            },
            None => None,
        };
        match updated {
            Some(next) => {
                proof {
                    if well_kept(self@) {
                        lemma_lookup_some(self@, key@);
                        let old_session = session_named(self@, username@)->Some_0;
                        let i = choose|i: int|
                            0 <= i < self@.len() && self@[i] == (key@, old_session);
                        assert(self@[i].0 == lower(self@[i].1.username));
                        law_register_keeps_order(self@, next@);
                    }
                }
                self.sessions.insert(key, next);
            },
            None => {},
        }
    }

    /// Looks up an active session by username, in any case.
    pub fn get_session(&self, username: &str) -> (r: Option<PlayerSession>)
        ensures
            opt_view(r) == session_named(self@, username@),
    {
        let key = to_lower(username);
        match self.sessions.get(key.as_str()) {
            Some(session) => Some(session.clone()),
            None => None,
        }
    }

    /// Returns a list of all active sessions.
    pub fn list_sessions(&self) -> (r: Vec<PlayerSession>)
        ensures
            views(r@) == values_of(self@),
    {
        let mut r: Vec<PlayerSession> = Vec::new();
        let mut i: usize = 0;
        while i < self.sessions.len()
            invariant
                i <= self@.len(),
                r@.len() == i,
                forall|j: int| 0 <= j < i ==> r@[j]@ == self@[j].1,
            decreases self@.len() - i,
        {
            r.push(self.sessions.value_at(i).clone());
            i = i + 1;
        }
        assert(views(r@) == values_of(self@));
        r
    }

    /// Returns the number of currently registered sessions.
    pub fn count(&self) -> (r: usize)
        ensures
            r == self@.len(),
    {
        self.sessions.len()
    }
}

impl Default for SessionManager {
    fn default() -> (r: Self)
        ensures
            r@ == Seq::<(Seq<char>, SessionModel)>::empty(),
    {
        SessionManager::new()
    }
}

// ---------------------------------------------------------------------------
// Laws of the register
// ---------------------------------------------------------------------------

/// Registering keeps the register in order.
pub proof fn law_register_keeps_order(s: Sessions, session: SessionModel)
    requires
        well_kept(s),
    ensures
        well_kept(registered(s, session)),
{
    let k = lower(session.username);
    law_bound_distinct(s, k, session);
    lemma_bound_from(s, k, session);
    let r = registered(s, session);
    assert forall|i: int| 0 <= i < r.len() implies (#[trigger] r[i]).0 == lower(r[i].1.username) by {
        if r[i] != (k, session) {
            let j = choose|j: int| 0 <= j < s.len() && s[j] == r[i];
            assert(s[j].0 == lower(s[j].1.username));
        }
    }
}

proof fn lemma_bound_from<X>(s: Seq<(Seq<char>, X)>, k: Seq<char>, v: X)
    ensures
        forall|i: int|
            0 <= i < bound(s, k, v).len() ==> #[trigger] bound(s, k, v)[i] == (k, v) || s.contains(
                bound(s, k, v)[i],
            ),
    decreases s.len(),
{
    if s.len() > 0 {
        let t = s.skip(1);
        lemma_bound_from(t, k, v);
        let r = bound(s, k, v);
        assert forall|i: int| 0 <= i < r.len() implies #[trigger] r[i] == (k, v) || s.contains(
            r[i],
        ) by {
            if s[0].0 == k {
                if i > 0 {
                    assert(s[i] == r[i]);
                }
            } else if i == 0 {
                assert(s[0] == r[0]);
            } else {
                let b = bound(t, k, v);
                assert(r[i] == b[i - 1]);
                if b[i - 1] != (k, v) {
                    let j = choose|j: int| 0 <= j < t.len() && t[j] == b[i - 1];
                    assert(s[j + 1] == r[i]);
                }
            }
        }
    }
}

proof fn lemma_unbound_from(s: Sessions, k: Seq<char>)
    ensures
        well_kept(s) ==> well_kept(unbound(s, k)),
{
    if well_kept(s) {
        crate::table::lemma_unbound_distinct(s, k);
        let r = unbound(s, k);
        assert forall|i: int| 0 <= i < r.len() implies (#[trigger] r[i]).0 == lower(
            r[i].1.username,
        ) by {
            let j = choose|j: int| 0 <= j < s.len() && s[j] == r[i];
            assert(s[j].0 == lower(s[j].1.username));
        }
    }
}

/// A registered session is found under its player's name in any case; every other player's
/// session is found as before.
pub proof fn law_registered_is_found(s: Sessions, session: SessionModel, name: Seq<char>)
    ensures
        session_named(registered(s, session), name) == (if same_ignoring_case(
            name,
            session.username,
        ) {
            Some(session)
        } else {
            session_named(s, name)
        }),
{
    law_bound_lookup(s, lower(session.username), session, lower(name));
}

/// After a player has been unregistered their session is not found under any spelling; every
/// other player's session is found as before.
pub proof fn law_unregistered_is_gone(s: Sessions, username: Seq<char>, name: Seq<char>)
    ensures
        session_named(unregistered(s, username), name) == (if same_ignoring_case(name, username) {
            None
        } else {
            session_named(s, name)
        }),
{
    law_unbound_lookup(s, lower(username), lower(name));
}

/// An update changes the server of that player's session and nothing else; it enters nobody.
pub proof fn law_update_changes_server_only(
    s: Sessions,
    username: Seq<char>,
    server: Seq<char>,
    name: Seq<char>,
)
    ensures
        session_named(server_updated(s, username, server), name) == (match session_named(s, name) {
            Some(session) => Some(
                if same_ignoring_case(name, username) {
                    PlayerSession { current_server: server, ..session }
                } else {
                    session
                },
            ),
            None => None,
        }),
{
    if let Some(session) = session_named(s, username) {
        law_bound_lookup(
            s,
            lower(username),
            PlayerSession { current_server: server, ..session },
            lower(name),
        );
    }
}

/// The register counts each name once: registering adds one unless the player is there.
pub proof fn law_count_follows_names(s: Sessions, session: SessionModel)
    requires
        well_kept(s),
    ensures
        registered(s, session).len() == s.len() + (if session_named(s, session.username) is Some {
            0int
        } else {
            1
        }),
{
    law_bound_distinct(s, lower(session.username), session);
}

/// The list of sessions is the register's: each session once, in order, and as many as are counted.
pub proof fn law_list_is_the_register(
    m: SessionManager,
    name: &str,
    list: Vec<PlayerSession>,
    n: usize,
    s: Option<PlayerSession>,
)
    requires
        call_ensures(SessionManager::list_sessions, (&m,), list),
        call_ensures(SessionManager::count, (&m,), n),
        call_ensures(SessionManager::get_session, (&m, name), s),
    ensures
        list@.len() == m@.len(),
        n == m@.len(),
        forall|i: int| 0 <= i < m@.len() ==> (#[trigger] list@[i])@ == m@[i].1,
        s is Some <==> crate::table::keys_of(m@).contains(lower(name@)),
        s matches Some(x) ==> m@.contains((lower(name@), x@)),
{
    lemma_lookup_some(m@, lower(name@));
    let all = views(list@);
    assert(all.len() == list@.len());
    assert forall|i: int| 0 <= i < m@.len() implies (#[trigger] list@[i])@ == m@[i].1 by {
        assert(all[i] == values_of(m@)[i]);
    }
}

} // verus!
