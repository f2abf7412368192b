//! What plugins may ask of the proxy, and do to its players.
use vstd::prelude::*;
use vstd::string::*;

use crate::command::dispatcher::{PluginSender, PluginSenderModel};
use crate::command::source::{Effect, EffectModel};
use crate::config::{BackendConfig, BackendModel};
use crate::crypto::{uuid_hyphenated, uuid_parse, uuid_parsed, uuid_text};
use crate::session::{
    session_named, PlayerAction, PlayerActionModel, PlayerSession, SessionManager, SessionModel,
};
use crate::table::{lookup, opt_view, values_of, views, Table};
use crate::text::{cat2, owned, text_eq};

verus! {

broadcast use vstd::seq::group_seq_axioms;

/// A player as plugins see them.
#[derive(Debug, PartialEq, Eq)]
pub struct PlayerInfo<S = String> {
    pub uuid: S,
    pub username: S,
    pub current_server: S,
    pub client_ip: S,
    pub protocol_version: u32,
}

pub type PlayerInfoModel = PlayerInfo<Seq<char>>;

impl View for PlayerInfo {
    type V = PlayerInfoModel;

    open spec fn view(&self) -> PlayerInfoModel {
        PlayerInfo {
            uuid: self.uuid@,
            username: self.username@,
            current_server: self.current_server@,
            client_ip: self.client_ip@,
            protocol_version: self.protocol_version,
        }
    }
}

/// A server as plugins see it.
#[derive(Debug, PartialEq, Eq)]
pub struct ServerInfo<S = String> {
    pub name: S,
    pub address: S,
    pub player_count: u32,
}

pub type ServerInfoModel = ServerInfo<Seq<char>>;

impl View for ServerInfo {
    type V = ServerInfoModel;

    open spec fn view(&self) -> ServerInfoModel {
        ServerInfo {
            name: self.name@,
            address: self.address@,
            player_count: self.player_count,
        }
    }
}

pub open spec fn player_info(s: SessionModel) -> PlayerInfoModel {
    PlayerInfo {
        uuid: uuid_text(s.uuid),
        username: s.username,
        current_server: s.current_server,
        client_ip: s.client_ip,
        protocol_version: s.protocol_version,
    }
}

pub open spec fn player_infos(players: Seq<SessionModel>) -> Seq<PlayerInfoModel> {
    Seq::new(players.len(), |i: int| player_info(players[i]))
}

/// A count as plugins see it, in 32 bits.
pub open spec fn count_32(n: nat) -> u32 {
    (n % 0x1_0000_0000) as u32
}

/// The first of some players with an identifier.
pub open spec fn with_uuid(players: Seq<SessionModel>, id: u128) -> Option<SessionModel>
    decreases players.len(),
{
    if players.len() == 0 {
        None
    } else if players[0].uuid == id {
        Some(players[0])
    } else {
        with_uuid(players.skip(1), id)
    }
}

/// The player whose identifier a text is.
pub open spec fn addressed(players: Seq<SessionModel>, uuid: Seq<char>) -> Option<SessionModel> {
    match uuid_parsed(uuid) {
        Ok(id) => with_uuid(players, id),
        Err(_) => None,
    }
}

/// How many of some players are on a server.
pub open spec fn players_on(players: Seq<SessionModel>, server: Seq<char>) -> nat
    decreases players.len(),
{
    if players.len() == 0 {
        0
    } else {
        players_on(players.drop_last(), server) + (if players.last().current_server == server {
            1nat
        } else {
            0
        })
    }
}

pub open spec fn server_infos(
    servers: Seq<(Seq<char>, BackendModel)>,
    players: Seq<SessionModel>,
) -> Seq<ServerInfoModel> {
    Seq::new(
        servers.len(),
        |i: int|
            ServerInfo {
                name: servers[i].0,
                address: servers[i].1.address,
                player_count: count_32(players_on(players, servers[i].0)),
            },
    )
}

/// A message to each of some players.
pub open spec fn messages(players: Seq<SessionModel>, message: Seq<char>) -> Seq<EffectModel> {
    Seq::new(
        players.len(),
        |i: int|
            Effect::Act { channel: players[i].channel, action: PlayerAction::Message(message) },
    )
}

/// An action for the player whose identifier a text is, if they are here.
pub open spec fn acted(
    players: Seq<SessionModel>,
    uuid: Seq<char>,
    action: PlayerActionModel,
) -> Option<EffectModel> {
    match addressed(players, uuid) {
        Some(s) => Some(Effect::Act { channel: s.channel, action }),
        None => None,
    }
}

/// What a plugin's answer to a sender comes to: a line on the console, or a message.
pub open spec fn answered(
    players: Seq<SessionModel>,
    sender: PluginSenderModel,
    message: Seq<char>,
) -> Option<EffectModel> {
    if !sender.is_player {
        Some(Effect::Log("[Console] "@ + message))
    } else {
        match sender.player_uuid {
            Some(uuid) => acted(players, uuid, PlayerAction::Message(message)),
            None => None,
        }
    }
}

fn info_of(s: &PlayerSession) -> (r: PlayerInfo)
    ensures
        r@ == player_info(s@),
        uuid_parsed(r.uuid@) == Ok::<u128, Seq<char>>(s.uuid),
{
    PlayerInfo {
        uuid: uuid_hyphenated(s.uuid),
        username: s.username.clone(),
        current_server: s.current_server.clone(),
        client_ip: s.client_ip.clone(),
        protocol_version: s.protocol_version,
    }
}

/// The proxy as far as plugins can reach it.
pub struct ProxyPluginContext<'a> {
    pub servers: &'a Table<BackendConfig>,
    pub session_manager: &'a SessionManager,
}

impl<'a> ProxyPluginContext<'a> {
    pub open spec fn players(&self) -> Seq<SessionModel> {
        values_of(self.session_manager@)
    }

    pub fn get_player_count(&self) -> (r: u32)
        ensures
            r == count_32(self.players().len()),
    {
        let n: u64 = self.session_manager.count() as u64;
        (n % 0x1_0000_0000) as u32
    }

    /// All players. Each can be found again by the identifier that is given here.
    pub fn get_players(&self) -> (r: Vec<PlayerInfo>)
        ensures
            views(r@) == player_infos(self.players()),
            forall|i: int|
                0 <= i < r@.len() ==> uuid_parsed((#[trigger] r@[i]).uuid@) == Ok::<u128, Seq<char>>(
                    self.players()[i].uuid,
                ),
    {
        let sessions = self.session_manager.list_sessions();
        let ghost all = self.players();
        let mut r: Vec<PlayerInfo> = Vec::new();
        let mut i: usize = 0;
        while i < sessions.len()
            invariant
                i <= sessions@.len(),
                views(sessions@) == all,
                r@.len() == i,
                forall|j: int|
                    0 <= j < i ==> (#[trigger] r@[j])@ == player_info(all[j]) && uuid_parsed(
                        r@[j].uuid@,
                    ) == Ok::<u128, Seq<char>>(all[j].uuid),
            decreases sessions.len() - i,
        {
            assert(all[i as int] == sessions@[i as int]@);
            r.push(info_of(&sessions[i]));
            i = i + 1;
        }
        assert(all.len() == sessions@.len());
        assert(views(r@) == player_infos(all));
        r
    }

    pub fn get_player_by_name(&self, username: &str) -> (r: Option<PlayerInfo>)
        ensures
            opt_view(r) == (match session_named(self.session_manager@, username@) {
                Some(s) => Some(player_info(s)),
                None => None,
            }),
    {
        match self.session_manager.get_session(username) {
            Some(s) => Some(info_of(&s)),
            None => None,
        }
    }

    fn find(&self, uuid: &str) -> (r: Option<PlayerSession>)
        ensures
            opt_view(r) == addressed(self.players(), uuid@),
    {
        match uuid_parse(uuid) {
            Ok(id) => {
                let sessions = self.session_manager.list_sessions();
                let ghost all = self.players();
                let mut i: usize = 0;
                assert(all.skip(0) == all);
                while i < sessions.len()
                    invariant
                        i <= sessions@.len(),
                        views(sessions@) == all,
                        all == self.players(),
                        uuid_parsed(uuid@) == Ok::<u128, Seq<char>>(id),
                        with_uuid(all, id) == with_uuid(all.skip(i as int), id),
                    decreases sessions.len() - i,
                {
                    assert(all.skip(i as int)[0] == sessions@[i as int]@);
                    if sessions[i].uuid == id {
                        return Some(sessions[i].clone());
                    }
                    assert(all.skip(i as int).skip(1) == all.skip(i + 1));
                    i = i + 1;
                }
                assert(all.len() == sessions@.len());
                None
            },
            Err(_) => None,
        }
    }

    pub fn get_player_by_uuid(&self, uuid: &str) -> (r: Option<PlayerInfo>)
        ensures
            opt_view(r) == (match addressed(self.players(), uuid@) {
                Some(s) => Some(player_info(s)),
                None => None,
            }),
    {
        match self.find(uuid) {
            Some(s) => Some(info_of(&s)),
            None => None,
        }
    }

    fn count_on(&self, sessions: &Vec<PlayerSession>, server: &str) -> (r: u32)
        ensures
            r == count_32(players_on(views(sessions@), server@)),
    {
        let ghost all = views(sessions@);
        let mut n: u64 = 0;
        let mut i: usize = 0;
        assert(all.take(0) == Seq::<SessionModel>::empty());
        while i < sessions.len()
            invariant
                i <= sessions@.len(),
                all == views(sessions@),
                n == players_on(all.take(i as int), server@),
                n <= i,
            decreases sessions.len() - i,
        {
            assert(all.take(i + 1).drop_last() == all.take(i as int));
            assert(all.take(i + 1).last() == sessions@[i as int]@);
            if text_eq(sessions[i].current_server.as_str(), server) {
                n = n + 1;
            }
            i = i + 1;
        }
        assert(all.take(all.len() as int) == all);
        (n % 0x1_0000_0000) as u32
    }

    pub fn get_servers(&self) -> (r: Vec<ServerInfo>)
        ensures
            views(r@) == server_infos(self.servers@, self.players()),
    {
        let sessions = self.session_manager.list_sessions();
        let ghost all = self.servers@;
        let ghost players = self.players();
        let mut r: Vec<ServerInfo> = Vec::new();
        let mut i: usize = 0;
        while i < self.servers.len()
            invariant
                i <= all.len(),
                all == self.servers@,
                views(sessions@) == players,
                r@.len() == i,
                forall|j: int|
                    0 <= j < i ==> (#[trigger] r@[j])@ == server_infos(all, players)[j],
            decreases all.len() - i,
        {
            let name = self.servers.key_at(i).clone();
            let player_count: u32 = self.count_on(&sessions, name.as_str());
            let address = self.servers.value_at(i).address.clone();
            r.push(ServerInfo { name, address, player_count });
            i = i + 1;
        }
        assert(views(r@) == server_infos(all, players));
        r
    }

    /// A message to every player, and a line on the console.
    pub fn broadcast(&self, message: &str) -> (r: Vec<Effect>)
        ensures
            views(r@) == messages(self.players(), message@).push(
                Effect::Log("[Broadcast] "@ + message@),
            ),
    {
        let sessions = self.session_manager.list_sessions();
        let ghost all = self.players();
        let mut r: Vec<Effect> = Vec::new();
        let mut i: usize = 0;
        while i < sessions.len()
            invariant
                i <= sessions@.len(),
                views(sessions@) == all,
                r@.len() == i,
                forall|j: int|
                    0 <= j < i ==> (#[trigger] r@[j])@ == messages(all, message@)[j],
            decreases sessions.len() - i,
        {
            assert(all[i as int] == sessions@[i as int]@);
            r.push(
                Effect::Act {
                    channel: sessions[i].channel,
                    action: PlayerAction::Message(owned(message)),
                },
            );
            i = i + 1;
        }
        assert(all.len() == sessions@.len());
        r.push(Effect::Log(cat2("[Broadcast] ", message)));
        assert(views(r@) == messages(all, message@).push(
            Effect::Log("[Broadcast] "@ + message@),
        ));
        r
    }

    fn act(&self, uuid: &str, action: PlayerAction) -> (r: Option<Effect>)
        ensures
            opt_view(r) == acted(self.players(), uuid@, action@),
    {
        match self.find(uuid) {
            Some(s) => Some(Effect::Act { channel: s.channel, action }),
            None => None,
        }
    }

    pub fn send_message(&self, player_uuid: &str, message: String) -> (r: Option<Effect>)
        ensures
            opt_view(r) == acted(
                self.players(),
                player_uuid@,
                PlayerActionModel::Message(message@),
            ),
    {
        self.act(player_uuid, PlayerAction::Message(message))
    }

    pub fn disconnect_player(&self, player_uuid: &str, reason: String) -> (r: Option<Effect>)
        ensures
            opt_view(r) == acted(
                self.players(),
                player_uuid@,
                PlayerActionModel::Disconnect(reason@),
            ),
    {
        self.act(player_uuid, PlayerAction::Disconnect(reason))
    }

    /// Only a configured server can be connected to.
    pub fn connect_player(&self, player_uuid: &str, server_name: String) -> (r: Option<Effect>)
        ensures
            opt_view(r) == (if lookup(self.servers@, server_name@) is Some {
                acted(
                    self.players(),
                    player_uuid@,
                    PlayerActionModel::Connect { server_name: server_name@ },
                )
            } else {
                None
            }),
    {
        if self.servers.contains_key(server_name.as_str()) {
            self.act(player_uuid, PlayerAction::Connect { server_name })
        } else {
            None
        }
    }

    pub fn send_plugin_message(&self, player_uuid: &str, channel: String, data: Vec<u8>) -> (r:
        Option<Effect>)
        ensures
            opt_view(r) == acted(
                self.players(),
                player_uuid@,
                PlayerActionModel::PluginMessage { channel: channel@, data: data@ },
            ),
    {
        self.act(player_uuid, PlayerAction::PluginMessage { channel, data })
    }

    /// A plugin answers whoever gave a command.
    pub fn reply(&self, sender: &PluginSender, message: String) -> (r: Option<Effect>)
        ensures
            opt_view(r) == answered(self.players(), sender@, message@),
    {
        if !sender.is_player {
            Some(Effect::Log(cat2("[Console] ", message.as_str())))
        } else {
            match &sender.player_uuid {
                Some(uuid) => self.act(uuid.as_str(), PlayerAction::Message(message)),
                None => None,
            }
        }
    }
}

// ---------------------------------------------------------------------------
// Laws of the host
// ---------------------------------------------------------------------------

/// Every player who is here can be addressed by their identifier.
pub proof fn law_player_is_found(players: Seq<SessionModel>, i: int)
    requires
        0 <= i < players.len(),
    ensures
        with_uuid(players, players[i].uuid) is Some,
        with_uuid(players, players[i].uuid)->Some_0.uuid == players[i].uuid,
        players.contains(with_uuid(players, players[i].uuid)->Some_0),
    decreases players.len(),
{
    let id = players[i].uuid;
    if players[0].uuid != id {
        let rest = players.skip(1);
        assert(rest[i - 1] == players[i]);
        law_player_is_found(rest, i - 1);
        let found = with_uuid(rest, id)->Some_0;
        let j = choose|j: int| 0 <= j < rest.len() && rest[j] == found;
        assert(players[j + 1] == found);
    }
}

/// No one who is not here is acted upon.
pub proof fn law_only_players_are_reached(
    players: Seq<SessionModel>,
    uuid: Seq<char>,
    action: PlayerActionModel,
)
    ensures
        acted(players, uuid, action) is Some ==> addressed(players, uuid) is Some
            && players.contains(addressed(players, uuid)->Some_0),
{
    if let Ok(id) = uuid_parsed(uuid) {
        lemma_found_is_here(players, id);
    }
}

proof fn lemma_found_is_here(players: Seq<SessionModel>, id: u128)
    ensures
        with_uuid(players, id) matches Some(s) ==> players.contains(s),
    decreases players.len(),
{
    if players.len() > 0 {
        if players[0].uuid == id {
            assert(players.contains(players[0]));
        } else {
            let rest = players.skip(1);
            lemma_found_is_here(rest, id);
            if let Some(s) = with_uuid(rest, id) {
                let j = choose|j: int| 0 <= j < rest.len() && rest[j] == s;
                assert(players[j + 1] == s);
            }
        }
    }
}

/// A player is counted on one server at most: on servers with different names there are never
/// more players together than there are players.
pub proof fn law_counts_do_not_overlap(players: Seq<SessionModel>, a: Seq<char>, b: Seq<char>)
    requires
        a != b,
    ensures
        players_on(players, a) + players_on(players, b) <= players.len(),
    decreases players.len(),
{
    if players.len() > 0 {
        law_counts_do_not_overlap(players.drop_last(), a, b);
    }
}

/// Plugins see of a player what their session says.
pub proof fn law_player_info_is_the_sessions(s: SessionModel)
    ensures
        ({
            let i = player_info(s);
            &&& i.uuid == uuid_text(s.uuid)
            &&& i.username == s.username
            &&& i.current_server == s.current_server
            &&& i.client_ip == s.client_ip
            &&& i.protocol_version == s.protocol_version
        }),
{
}

/// An action reaches the connection of a player with that identifier, as it is, and there is one
/// exactly where such a player is here.
pub proof fn law_actions_reach_their_player(
    players: Seq<SessionModel>,
    uuid: Seq<char>,
    id: u128,
    action: PlayerActionModel,
)
    requires
        uuid_parsed(uuid) == Ok::<u128, Seq<char>>(id),
    ensures
        acted(players, uuid, action) is Some <==> exists|i: int|
            0 <= i < players.len() && (#[trigger] players[i]).uuid == id,
        acted(players, uuid, action) matches Some(e) ==> exists|i: int|
            0 <= i < players.len() && (#[trigger] players[i]).uuid == id && e == (
            EffectModel::Act { channel: players[i].channel, action }),
{
    lemma_found_is_here(players, id);
    if exists|i: int| 0 <= i < players.len() && (#[trigger] players[i]).uuid == id {
        let i = choose|i: int| 0 <= i < players.len() && (#[trigger] players[i]).uuid == id;
        law_player_is_found(players, i);
    }
    if let Some(s) = with_uuid(players, id) {
        lemma_found_has_id(players, id);
        let j = choose|j: int| 0 <= j < players.len() && players[j] == s;
        assert(players[j].uuid == id);
    }
}

proof fn lemma_found_has_id(players: Seq<SessionModel>, id: u128)
    ensures
        with_uuid(players, id) matches Some(s) ==> s.uuid == id,
    decreases players.len(),
{
    if players.len() > 0 && players[0].uuid != id {
        lemma_found_has_id(players.skip(1), id);
    }
}

/// What plugins ask for one player is done to that player: a message, a disconnect, a plugin
/// message, and a switch to a server, if that server is configured.
pub proof fn law_plugin_requests_are_what_they_say(
    c: ProxyPluginContext,
    uuid: &str,
    t: String,
    data: Vec<u8>,
    m: Option<Effect>,
    d: Option<Effect>,
    s: Option<Effect>,
    p: Option<Effect>,
)
    requires
        call_ensures(ProxyPluginContext::send_message, (&c, uuid, t), m),
        call_ensures(ProxyPluginContext::disconnect_player, (&c, uuid, t), d),
        call_ensures(ProxyPluginContext::connect_player, (&c, uuid, t), s),
        call_ensures(ProxyPluginContext::send_plugin_message, (&c, uuid, t, data), p),
    ensures
        opt_view(m) == acted(c.players(), uuid@, PlayerActionModel::Message(t@)),
        opt_view(d) == acted(c.players(), uuid@, PlayerActionModel::Disconnect(t@)),
        opt_view(p) == acted(
            c.players(),
            uuid@,
            PlayerActionModel::PluginMessage { channel: t@, data: data@ },
        ),
        crate::table::keys_of(c.servers@).contains(t@) ==> opt_view(s) == acted(
            c.players(),
            uuid@,
            PlayerActionModel::Connect { server_name: t@ },
        ),
        !crate::table::keys_of(c.servers@).contains(t@) ==> s is None,
{
    crate::table::lemma_lookup_some(c.servers@, t@);
}

/// A broadcast reaches every player once, and the console.
pub proof fn law_broadcast_reaches_everybody(c: ProxyPluginContext, message: &str, r: Vec<Effect>)
    requires
        call_ensures(ProxyPluginContext::broadcast, (&c, message), r),
    ensures
        r@.len() == c.players().len() + 1,
        forall|i: int|
            0 <= i < c.players().len() ==> (#[trigger] r@[i])@ == (EffectModel::Act {
                channel: c.players()[i].channel,
                action: PlayerAction::Message(message@),
            }),
        r@.last()@ matches Effect::Log(t) && crate::text::holds_part(t, message@),
{
    let all = views(r@);
    crate::text::lemma_holds_part("[Broadcast] "@, message@, Seq::empty());
    assert(all.len() == r@.len());
    assert forall|i: int| 0 <= i < r@.len() implies all[i] == (#[trigger] r@[i])@ by {}
    assert(all[all.len() - 1] == r@.last()@);
}

/// A player is looked up by name in any case, and by identifier; plugins see their session.
pub proof fn law_players_are_looked_up(
    c: ProxyPluginContext,
    name: &str,
    uuid: &str,
    a: Option<PlayerInfo>,
    b: Option<PlayerInfo>,
    n: u32,
)
    requires
        call_ensures(ProxyPluginContext::get_player_by_name, (&c, name), a),
        call_ensures(ProxyPluginContext::get_player_by_uuid, (&c, uuid), b),
        call_ensures(ProxyPluginContext::get_player_count, (&c,), n),
    ensures
        a is Some <==> session_named(c.session_manager@, name@) is Some,
        a matches Some(i) ==> i@ == player_info(session_named(c.session_manager@, name@)->Some_0),
        b is Some <==> addressed(c.players(), uuid@) is Some,
        b matches Some(i) ==> i@ == player_info(addressed(c.players(), uuid@)->Some_0),
        c.players().len() <= u32::MAX ==> n == c.players().len(),
{
}

/// A player's session is on a server.
pub open spec fn is_on(server: Seq<char>) -> spec_fn(SessionModel) -> bool {
    |p: SessionModel| p.current_server == server
}

/// Plugins see every configured server with its own address and with the number of players whose
/// sessions are on it.
pub proof fn law_servers_are_shown(
    servers: Seq<(Seq<char>, BackendModel)>,
    players: Seq<SessionModel>,
    i: int,
)
    requires
        0 <= i < servers.len(),
        players.len() <= u32::MAX,
    ensures
        ({
            let s = server_infos(servers, players);
            let here = players.filter(is_on(servers[i].0));
            &&& s.len() == servers.len()
            &&& s[i].name == servers[i].0
            &&& s[i].address == servers[i].1.address
            &&& s[i].player_count == here.len()
        }),
{
    lemma_players_on(players, servers[i].0);
}

proof fn lemma_players_on(players: Seq<SessionModel>, server: Seq<char>)
    ensures
        players_on(players, server) == players.filter(is_on(server)).len(),
        players_on(players, server) <= players.len(),
    decreases players.len(),
{
    reveal(Seq::filter);
    if players.len() > 0 {
        lemma_players_on(players.drop_last(), server);
    }
}

/// A plugin's answer reaches whoever gave the command: the console's log, or the player's
/// connection.
pub proof fn law_plugin_answers_reach_the_sender(
    players: Seq<SessionModel>,
    sender: PluginSenderModel,
    message: Seq<char>,
)
    ensures
        !sender.is_player ==> (answered(players, sender, message) matches Some(Effect::Log(t))
            && crate::text::holds_part(t, message)),
        sender.is_player && sender.player_uuid is None ==> answered(players, sender, message)
            is None,
        sender.is_player ==> (sender.player_uuid matches Some(u) ==> answered(
            players,
            sender,
            message,
        ) == acted(players, u, PlayerAction::Message(message))),
{
    crate::text::lemma_holds_part("[Console] "@, message, Seq::empty());
}

/// Plugins are shown every player and every server of this proxy, and their answers go to the
/// sender that they were given.
pub proof fn law_plugins_see_this_proxy(
    c: ProxyPluginContext,
    sender: PluginSender,
    message: String,
    players: Vec<PlayerInfo>,
    servers: Vec<ServerInfo>,
    r: Option<Effect>,
)
    requires
        call_ensures(ProxyPluginContext::get_players, (&c,), players),
        call_ensures(ProxyPluginContext::get_servers, (&c,), servers),
        call_ensures(ProxyPluginContext::reply, (&c, &sender, message), r),
    ensures
        players@.len() == c.players().len(),
        forall|i: int|
            0 <= i < players@.len() ==> (#[trigger] players@[i])@ == player_info(c.players()[i]),
        views(servers@) == server_infos(c.servers@, c.players()),
        opt_view(r) == answered(c.players(), sender@, message@),
        c.players() == values_of(c.session_manager@),
{
    let all = views(players@);
    assert(all.len() == players@.len());
    assert forall|i: int| 0 <= i < players@.len() implies (#[trigger] players@[i])@ == player_info(
        c.players()[i],
    ) by {
        assert(all[i] == player_infos(c.players())[i]);
    }
}

} // verus!
