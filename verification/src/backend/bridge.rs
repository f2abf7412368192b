//! A player's stay on the proxy, from the first connection to a backend until they leave.
//!
//! The stay is a machine: each event gives the next phase and the commands to carry out, in
//! order. Whoever runs the machine does the talking to client, backends and plugins, and hands
//! back what came of it.
use vstd::prelude::*;
use vstd::string::*;

use crate::auth::{AuthenticatedPlayer, PlayerModel};
pub use crate::backend::error::{BridgeError, TunnelExit};
use crate::backend::error::{bridge_error_words, BridgeErrorModel, TunnelExitModel};
use crate::backend::router::Servers;
use crate::codec::{to_unsigned, unsigned};
use crate::config::{BackendConfig, BackendModel, NetworkConfig};
use crate::crypto::{uuid_hyphenated, uuid_text};
use crate::plugin::api::{
    copy_bytes, PlayerDisconnectEvent, PlayerJoinEvent, ServerConnectEvent, ServerConnectModel,
    ServerConnectedEvent,
};
use crate::table::{lookup, views, Table};
use crate::text::{cat2, cat3, cat5, holds_part, opt_text, owned, text_eq};
use crate::version::ClientVersion;

verus! {

broadcast use vstd::seq::group_seq_axioms;

/// All that is fixed about a player's stay.
pub struct BackendBridge {
    pub server_name: String,
    pub config: BackendConfig,
    pub fallback_server: Option<(String, BackendConfig)>,
    pub client_ip: String,
    pub client_version: ClientVersion,
    pub virtual_host: String,
    pub player: AuthenticatedPlayer,
    pub max_packets_per_sec: u32,
    pub network_config: NetworkConfig,
    pub compression_level: i32,
    /// Every configured backend
    pub servers: Table<BackendConfig>,
}

/// What it holds.
pub struct BridgeModel {
    pub server_name: Seq<char>,
    pub config: BackendModel,
    pub fallback: Option<(Seq<char>, BackendModel)>,
    pub client_ip: Seq<char>,
    pub version: ClientVersion,
    pub virtual_host: Seq<char>,
    pub player: PlayerModel,
    pub max_packets_per_sec: u32,
    pub network: NetworkConfig,
    pub compression_level: i32,
    pub servers: Servers,
}

impl View for BackendBridge {
    type V = BridgeModel;

    open spec fn view(&self) -> BridgeModel {
        BridgeModel {
            server_name: self.server_name@,
            config: self.config@,
            fallback: match self.fallback_server {
                Some((n, c)) => Some((n@, c@)),
                None => None,
            },
            client_ip: self.client_ip@,
            version: self.client_version,
            virtual_host: self.virtual_host@,
            player: self.player@,
            max_packets_per_sec: self.max_packets_per_sec,
            network: self.network_config,
            compression_level: self.compression_level,
            servers: self.servers@,
        }
    }
}

/// Where a stay stands.
#[derive(Debug, PartialEq, Eq)]
pub enum Phase<S = String> {
    /// Plugins are asked about the first server
    Asking,
    /// Logging in at the first server
    LoggingIn { server: S },
    /// Logging in at the fallback, the first server having failed
    FallingBack { server: S },
    /// The client is told that the login has succeeded
    Greeting { server: S },
    /// Packets flow
    Playing { server: S },
    /// Plugins are asked about a switch
    AskingSwitch { server: S },
    /// Logging in at the server to switch to
    Switching { server: S, target: S },
    /// Logging in at the fallback, a switch having failed
    SwitchFallback { server: S, target: S },
    /// Logging in at the fallback, the server having gone
    Recovering { server: S, target: S },
    /// The stay is over
    Ended,
}

pub type PhaseModel = Phase<Seq<char>>;

impl View for Phase {
    type V = PhaseModel;

    open spec fn view(&self) -> PhaseModel {
        match self {
            Phase::Asking => Phase::Asking,
            Phase::LoggingIn { server } => Phase::LoggingIn { server: server@ },
            Phase::FallingBack { server } => Phase::FallingBack { server: server@ },
            Phase::Greeting { server } => Phase::Greeting { server: server@ },
            Phase::Playing { server } => Phase::Playing { server: server@ },
            Phase::AskingSwitch { server } => Phase::AskingSwitch { server: server@ },
            Phase::Switching { server, target } => Phase::Switching {
                server: server@,
                target: target@,
            },
            Phase::SwitchFallback { server, target } => Phase::SwitchFallback {
                server: server@,
                target: target@,
            },
            Phase::Recovering { server, target } => Phase::Recovering {
                server: server@,
                target: target@,
            },
            Phase::Ended => Phase::Ended,
        }
    }
}

/// What comes back to the machine.
#[derive(Debug, PartialEq, Eq)]
pub enum BridgeEvent<S = String, B = Vec<u8>> {
    /// Plugins have seen this event
    Decided(ServerConnectEvent<S>),
    /// A login has succeeded with this packet
    LoggedIn(B),
    /// A login has failed
    LoginFailed(BridgeError<S>),
    /// The client has got its packet
    Sent,
    /// The client could not be reached
    SendFailed(S),
    /// The tunnel has ended
    TunnelEnded(TunnelExit<S>),
    /// The tunnel has failed
    TunnelFailed(BridgeError<S>),
}

pub type BridgeEventModel = BridgeEvent<Seq<char>, Seq<u8>>;

impl View for BridgeEvent {
    type V = BridgeEventModel;

    open spec fn view(&self) -> BridgeEventModel {
        match self {
            BridgeEvent::Decided(e) => BridgeEvent::Decided(e@),
            BridgeEvent::LoggedIn(b) => BridgeEvent::LoggedIn(b@),
            BridgeEvent::LoginFailed(e) => BridgeEvent::LoginFailed(e@),
            BridgeEvent::Sent => BridgeEvent::Sent,
            BridgeEvent::SendFailed(t) => BridgeEvent::SendFailed(t@),
            BridgeEvent::TunnelEnded(x) => BridgeEvent::TunnelEnded(x@),
            BridgeEvent::TunnelFailed(e) => BridgeEvent::TunnelFailed(e@),
        }
    }
}

/// What the machine asks for.
#[derive(Debug, PartialEq, Eq)]
pub enum BridgeCommand<S = String, B = Vec<u8>> {
    /// Ask plugins about a connection; answered by `Decided`
    FireServerConnect(ServerConnectEvent<S>),
    /// Tell plugins of a connection
    FireServerConnected(ServerConnectedEvent<S>),
    /// Tell plugins that the player has joined
    FirePlayerJoin(PlayerJoinEvent<S>),
    /// Tell plugins that the player has left
    FirePlayerDisconnect(PlayerDisconnectEvent<S>),
    /// Log in at a backend; answered by `LoggedIn` or `LoginFailed`
    Login { server: S, config: BackendConfig<S> },
    /// Send a packet to the client; answered by `Sent` or `SendFailed`
    SendToClient(B),
    /// One more player is online
    CountIn,
    /// One player fewer is online
    CountOut,
    /// Enter the session
    Register { username: S, uuid: u128, server: S, client_ip: S, protocol_version: u32 },
    /// Enter the session's new server
    UpdateServer { username: S, server: S },
    /// Strike the session out
    Unregister { username: S },
    /// Let packets flow; answered by `TunnelEnded` or `TunnelFailed`
    Tunnel { server: S },
    /// Try to transfer the client
    SendTransfer { host: S, port: u16 },
    /// Try to show the player a line of chat
    SendChat(S),
    /// Try to put the client back into its configuration phase
    StartConfiguration,
    /// Talk to the backend of the last login from now on
    UseNewBackend,
    /// Try to disconnect the client with a reason
    Kick(S),
    /// The stay has ended as it should
    Finish,
    /// The stay has ended by an error
    Fail(BridgeError<S>),
}

pub type CommandModel = BridgeCommand<Seq<char>, Seq<u8>>;

impl View for BridgeCommand {
    type V = CommandModel;

    open spec fn view(&self) -> CommandModel {
        match self {
            BridgeCommand::FireServerConnect(e) => BridgeCommand::FireServerConnect(e@),
            BridgeCommand::FireServerConnected(e) => BridgeCommand::FireServerConnected(e@),
            BridgeCommand::FirePlayerJoin(e) => BridgeCommand::FirePlayerJoin(e@),
            BridgeCommand::FirePlayerDisconnect(e) => BridgeCommand::FirePlayerDisconnect(e@),
            BridgeCommand::Login { server, config } => BridgeCommand::Login {
                server: server@,
                config: config@,
            },
            BridgeCommand::SendToClient(b) => BridgeCommand::SendToClient(b@),
            BridgeCommand::CountIn => BridgeCommand::CountIn,
            BridgeCommand::CountOut => BridgeCommand::CountOut,
            BridgeCommand::Register { username, uuid, server, client_ip, protocol_version } => {
                BridgeCommand::Register {
                    username: username@,
                    uuid: *uuid,
                    server: server@,
                    client_ip: client_ip@,
                    protocol_version: *protocol_version,
                }
            },
            BridgeCommand::UpdateServer { username, server } => BridgeCommand::UpdateServer {
                username: username@,
                server: server@,
            },
            BridgeCommand::Unregister { username } => BridgeCommand::Unregister {
                username: username@,
            },
            BridgeCommand::Tunnel { server } => BridgeCommand::Tunnel { server: server@ },
            BridgeCommand::SendTransfer { host, port } => BridgeCommand::SendTransfer {
                host: host@,
                port: *port,
            },
            BridgeCommand::SendChat(t) => BridgeCommand::SendChat(t@),
            BridgeCommand::StartConfiguration => BridgeCommand::StartConfiguration,
            BridgeCommand::UseNewBackend => BridgeCommand::UseNewBackend,
            BridgeCommand::Kick(t) => BridgeCommand::Kick(t@),
            BridgeCommand::Finish => BridgeCommand::Finish,
            BridgeCommand::Fail(e) => BridgeCommand::Fail(e@),
        }
    }
}

// ---------------------------------------------------------------------------
// The machine
// ---------------------------------------------------------------------------

pub type StepModel = (PhaseModel, Seq<CommandModel>);

/// The question to plugins about a connection to `target`.
pub open spec fn question(
    b: BridgeModel,
    current: Option<Seq<char>>,
    target: Seq<char>,
) -> CommandModel {
    BridgeCommand::FireServerConnect(
        ServerConnectEvent {
            uuid: uuid_text(b.player.id),
            username: b.player.username,
            current_server: current,
            target_server: target,
            cancelled: false,
            cancel_reason: None,
        },
    )
}

pub open spec fn connected_news(b: BridgeModel, server: Seq<char>) -> CommandModel {
    BridgeCommand::FireServerConnected(
        ServerConnectedEvent {
            uuid: uuid_text(b.player.id),
            username: b.player.username,
            server_name: server,
        },
    )
}

/// How a stay begins.
pub open spec fn start_step(b: BridgeModel) -> StepModel {
    (Phase::Asking, seq![question(b, None, b.server_name)])
}

pub open spec fn or_text(t: Option<Seq<char>>, other: Seq<char>) -> Seq<char> {
    match t {
        Some(s) => s,
        None => other,
    }
}

/// The first login: plugins may forbid it or name another server; where that one is not
/// configured, its name is used with the first server's configuration.
pub open spec fn first_login(b: BridgeModel, decided: ServerConnectModel) -> StepModel {
    if decided.cancelled {
        (
            Phase::Ended,
            seq![
                BridgeCommand::Fail(
                    BridgeError::VineError(
                        or_text(decided.cancel_reason, "Connection cancelled by plugin"@),
                    ),
                ),
            ],
        )
    } else {
        let server = decided.target_server;
        let config = if server == b.server_name {
            b.config
        } else {
            match lookup(b.servers, server) {
                Some(c) => c,
                None => b.config,
            }
        };
        (Phase::LoggingIn { server }, seq![BridgeCommand::Login { server, config }])
    }
}

/// The fallback, unless it is the server that has just failed.
pub open spec fn fallback_from(b: BridgeModel, failed: Seq<char>) -> Option<
    (Seq<char>, BackendModel),
> {
    match b.fallback {
        Some((name, config)) => if name != failed {
            Some((name, config))
        } else {
            None
        },
        None => None,
    }
}

/// The end of a stay whose last server was `server`.
pub open spec fn farewell(b: BridgeModel, server: Seq<char>) -> Seq<CommandModel> {
    seq![
        BridgeCommand::FirePlayerDisconnect(
            PlayerDisconnectEvent {
                uuid: uuid_text(b.player.id),
                username: b.player.username,
                last_server: Some(server),
            },
        ),
        BridgeCommand::Unregister { username: b.player.username },
        BridgeCommand::CountOut,
        BridgeCommand::Finish,
    ]
}

/// The player is in: counted, announced, registered, and packets flow.
pub open spec fn arrival(b: BridgeModel, server: Seq<char>) -> StepModel {
    (
        Phase::Playing { server },
        seq![
            BridgeCommand::CountIn,
            connected_news(b, server),
            BridgeCommand::FirePlayerJoin(
                PlayerJoinEvent {
                    uuid: uuid_text(b.player.id),
                    username: b.player.username,
                    client_ip: b.client_ip,
                    initial_server: server,
                },
            ),
            BridgeCommand::Register {
                username: b.player.username,
                uuid: b.player.id,
                server,
                client_ip: b.client_ip,
                protocol_version: unsigned(b.version.protocol) as u32,
            },
            BridgeCommand::Tunnel { server },
        ],
    )
}

/// The player moves to the backend of the last login.
pub open spec fn moved(b: BridgeModel, server: Seq<char>, announce: bool) -> StepModel {
    let configure = if b.version.has_configuration {
        seq![CommandModel::StartConfiguration]
    } else {
        Seq::empty()
    };
    let news = if announce {
        seq![connected_news(b, server)]
    } else {
        Seq::empty()
    };
    (
        Phase::Playing { server },
        configure + seq![
            CommandModel::UseNewBackend,
            BridgeCommand::UpdateServer { username: b.player.username, server },
        ] + news + seq![CommandModel::Tunnel { server }],
    )
}

/// The backend has gone: the fallback is tried if there is one, otherwise the client is
/// disconnected.
pub open spec fn lost(b: BridgeModel, server: Seq<char>, reason: Option<Seq<char>>) -> StepModel {
    match fallback_from(b, server) {
        Some((target, config)) => (
            Phase::Recovering { server, target },
            seq![
                BridgeCommand::SendChat(
                    "§eConnecting to fallback server '"@ + target + "'... (§c"@ + or_text(
                        reason,
                        "Server closed"@,
                    ) + "§e)"@,
                ),
                BridgeCommand::Login { server: target, config },
            ],
        ),
        None => (
            Phase::Ended,
            seq![CommandModel::Kick(or_text(reason, "Lost connection to server"@))] + farewell(
                b,
                server,
            ),
        ),
    }
}

pub open spec fn tunnel_over(b: BridgeModel, server: Seq<char>, exit: TunnelExitModel) -> StepModel {
    match exit {
        TunnelExit::ClientDisconnected => (Phase::Ended, farewell(b, server)),
        TunnelExit::Transfer { host, port } => (
            Phase::Ended,
            seq![CommandModel::SendTransfer { host, port }] + farewell(b, server),
        ),
        TunnelExit::Connect { server_name } => (
            Phase::AskingSwitch { server },
            seq![question(b, Some(server), server_name)],
        ),
        TunnelExit::BackendDisconnected { reason } => lost(b, server, reason),
    }
}

/// A switch: plugins may forbid it, which leaves the player where they are, or name another
/// server; a server that is not configured ends the stay.
pub open spec fn switch_decided(
    b: BridgeModel,
    server: Seq<char>,
    decided: ServerConnectModel,
) -> StepModel {
    if decided.cancelled {
        (
            Phase::Playing { server },
            seq![
                BridgeCommand::SendChat(
                    "§c"@ + or_text(decided.cancel_reason, "Server switch cancelled by plugin"@),
                ),
                BridgeCommand::Tunnel { server },
            ],
        )
    } else {
        let target = decided.target_server;
        match lookup(b.servers, target) {
            None => (
                Phase::Ended,
                seq![
                    CommandModel::SendChat("Server '"@ + target + "' does not exist."@),
                ] + farewell(b, server),
            ),
            Some(config) => (
                Phase::Switching { server, target },
                seq![BridgeCommand::Login { server: target, config }],
            ),
        }
    }
}

pub open spec fn switch_failed(
    b: BridgeModel,
    server: Seq<char>,
    target: Seq<char>,
    e: BridgeErrorModel,
) -> StepModel {
    let notice = CommandModel::SendChat(
        "§cFailed to connect to server '"@ + target + "': "@ + bridge_error_words(e),
    );
    match fallback_from(b, target) {
        Some((fallback, config)) => (
            Phase::SwitchFallback { server, target: fallback },
            seq![notice, BridgeCommand::Login { server: fallback, config }],
        ),
        None => (Phase::Ended, seq![notice] + farewell(b, server)),
    }
}

/// What follows from an event. An event that a phase does not wait for changes nothing.
pub open spec fn bridge_step(b: BridgeModel, phase: PhaseModel, event: BridgeEventModel) -> StepModel {
    match (phase, event) {
        (Phase::Asking, BridgeEvent::Decided(d)) => first_login(b, d),
        (Phase::LoggingIn { server }, BridgeEvent::LoggedIn(packet)) => (
            Phase::Greeting { server },
            seq![BridgeCommand::SendToClient(packet)],
        ),
        (Phase::LoggingIn { server }, BridgeEvent::LoginFailed(e)) => match fallback_from(
            b,
            server,
        ) {
            Some((target, config)) => (
                Phase::FallingBack { server: target },
                seq![BridgeCommand::Login { server: target, config }],
            ),
            None => (Phase::Ended, seq![BridgeCommand::Fail(e)]),
        },
        (Phase::FallingBack { server }, BridgeEvent::LoggedIn(packet)) => (
            Phase::Greeting { server },
            seq![BridgeCommand::SendToClient(packet)],
        ),
        (Phase::FallingBack { server }, BridgeEvent::LoginFailed(e)) => (
            Phase::Ended,
            seq![BridgeCommand::Fail(e)],
        ),
        (Phase::Greeting { server }, BridgeEvent::Sent) => arrival(b, server),
        (Phase::Greeting { server }, BridgeEvent::SendFailed(t)) => (
            Phase::Ended,
            seq![BridgeCommand::Fail(BridgeError::EncodeError(t))],
        ),
        (Phase::Playing { server }, BridgeEvent::TunnelEnded(exit)) => tunnel_over(
            b,
            server,
            exit,
        ),
        (Phase::Playing { server }, BridgeEvent::TunnelFailed(e)) => lost(
            b,
            server,
            Some(bridge_error_words(e)),
        ),
        (Phase::AskingSwitch { server }, BridgeEvent::Decided(d)) => switch_decided(b, server, d),
        (Phase::Switching { server, target }, BridgeEvent::LoggedIn(_)) => moved(b, target, true),
        (Phase::Switching { server, target }, BridgeEvent::LoginFailed(e)) => switch_failed(
            b,
            server,
            target,
            e,
        ),
        (Phase::SwitchFallback { server, target }, BridgeEvent::LoggedIn(_)) => moved(
            b,
            target,
            false,
        ),
        (Phase::SwitchFallback { server, target }, BridgeEvent::LoginFailed(_)) => (
            Phase::Ended,
            seq![
                CommandModel::Kick(
                    "Lost connection to '"@ + server + "' and fallback unavailable"@,
                ),
            ] + farewell(b, server),
        ),
        (Phase::Recovering { server, target }, BridgeEvent::LoggedIn(_)) => moved(
            b,
            target,
            false,
        ),
        (Phase::Recovering { server, target }, BridgeEvent::LoginFailed(e)) => (
            Phase::Ended,
            seq![
                CommandModel::Kick(
                    "Lost connection to '"@ + server + "' and fallback unavailable: "@
                        + bridge_error_words(e),
                ),
            ] + farewell(b, server),
        ),
        (other, _) => (other, Seq::empty()),
    }
}

fn or_string(t: &Option<String>, other: &str) -> (r: String)
    ensures
        r@ == or_text(opt_text(*t), other@),
{
    match t {
        Some(s) => s.clone(),
        None => owned(other),
    }
}

/// A list of one command, or of none.
pub open spec fn only(c: Option<BridgeCommand>) -> Seq<CommandModel> {
    match c {
        Some(x) => seq![x@],
        None => Seq::empty(),
    }
}

/// A step and the step that is described agree.
pub open spec fn step_is(r: (Phase, Vec<BridgeCommand>), m: StepModel) -> bool {
    r.0@ == m.0 && views(r.1@) == m.1
}

impl BackendBridge {
    #[allow(clippy::too_many_arguments)]
    pub fn new(
        server_name: String,
        config: BackendConfig,
        fallback_server: Option<(String, BackendConfig)>,
        client_ip: String,
        client_version: ClientVersion,
        virtual_host: String,
        player: AuthenticatedPlayer,
        max_packets_per_sec: u32,
        network_config: NetworkConfig,
        compression_level: i32,
        servers: Table<BackendConfig>,
    ) -> (r: Self)
        ensures
            r == (BackendBridge {
                server_name,
                config,
                fallback_server,
                client_ip,
                client_version,
                virtual_host,
                player,
                max_packets_per_sec,
                network_config,
                compression_level,
                servers,
            }),
    {
        BackendBridge {
            server_name,
            config,
            fallback_server,
            client_ip,
            client_version,
            virtual_host,
            player,
            max_packets_per_sec,
            network_config,
            compression_level,
            servers,
        }
    }

    fn ask(&self, current: Option<String>, target: &str) -> (r: BridgeCommand)
        ensures
            r@ == question(self@, opt_text(current), target@),
    {
        BridgeCommand::FireServerConnect(
            ServerConnectEvent {
                uuid: uuid_hyphenated(self.player.id),
                username: self.player.username.clone(),
                current_server: current,
                target_server: owned(target),
                cancelled: false,
                cancel_reason: None,
            },
        )
    }

    fn news(&self, server: &str) -> (r: BridgeCommand)
        ensures
            r@ == connected_news(self@, server@),
    {
        BridgeCommand::FireServerConnected(
            ServerConnectedEvent {
                uuid: uuid_hyphenated(self.player.id),
                username: self.player.username.clone(),
                server_name: owned(server),
            },
        )
    }

    /// Begins the stay.
    pub fn start(&self) -> (r: (Phase, Vec<BridgeCommand>))
        ensures
            step_is(r, start_step(self@)),
    {
        let c = self.ask(None, self.server_name.as_str());
        let v = vec![c];
        assert(views(v@) == start_step(self@).1);
        (Phase::Asking, v)
    }

    fn begin_login(&self, decided: &ServerConnectEvent) -> (r: (Phase, Vec<BridgeCommand>))
        ensures
            step_is(r, first_login(self@, decided@)),
    {
        if decided.cancelled {
            let reason = or_string(&decided.cancel_reason, "Connection cancelled by plugin");
            let v = vec![BridgeCommand::Fail(BridgeError::VineError(reason))];
            assert(views(v@) == first_login(self@, decided@).1);
            return (Phase::Ended, v);
        }
        let config = if text_eq(decided.target_server.as_str(), self.server_name.as_str()) {
            self.config.clone()
        } else {
            match self.servers.get(decided.target_server.as_str()) {
                Some(c) => c.clone(),
                None => self.config.clone(),
            }
        };
        let v = vec![BridgeCommand::Login { server: decided.target_server.clone(), config }];
        assert(views(v@) == first_login(self@, decided@).1);
        (Phase::LoggingIn { server: decided.target_server.clone() }, v)
    }

    fn spare(&self, failed: &str) -> (r: Option<(String, BackendConfig)>)
        ensures
            r is Some <==> fallback_from(self@, failed@) is Some,
            r matches Some((n, c)) ==> fallback_from(self@, failed@) == Some((n@, c@)),
    {
        match &self.fallback_server {
            Some((name, config)) => {
                if text_eq(name.as_str(), failed) {
                    None
                } else {
                    Some((name.clone(), config.clone()))
                }
            },
            None => None,
        }
    }

    /// Appends the commands that end a stay.
    fn say_farewell(&self, out: &mut Vec<BridgeCommand>, server: &str)
        ensures
            views(final(out)@) == views(old(out)@) + farewell(self@, server@),
    {
        let ghost before = out@;
        out.push(
            BridgeCommand::FirePlayerDisconnect(
                PlayerDisconnectEvent {
                    uuid: uuid_hyphenated(self.player.id),
                    username: self.player.username.clone(),
                    last_server: Some(owned(server)),
                },
            ),
        );
        out.push(BridgeCommand::Unregister { username: self.player.username.clone() });
        out.push(BridgeCommand::CountOut);
        out.push(BridgeCommand::Finish);
        assert(views(out@) == views(before) + farewell(self@, server@));
    }

    fn end_after(&self, first: Option<BridgeCommand>, server: &str) -> (r: (
        Phase,
        Vec<BridgeCommand>,
    ))
        ensures
            r.0@ == PhaseModel::Ended,
            views(r.1@) == only(first) + farewell(self@, server@),
    {
        let mut v: Vec<BridgeCommand> = Vec::new();
        let ghost head = only(first);
        match first {
            Some(c) => v.push(c),
            None => {},
        }
        assert(views(v@) == head);
        self.say_farewell(&mut v, server);
        (Phase::Ended, v)
    }

    fn arrive(&self, server: &str) -> (r: (Phase, Vec<BridgeCommand>))
        ensures
            step_is(r, arrival(self@, server@)),
    {
        let mut v: Vec<BridgeCommand> = Vec::new();
        v.push(BridgeCommand::CountIn);
        v.push(self.news(server));
        v.push(
            BridgeCommand::FirePlayerJoin(
                PlayerJoinEvent {
                    uuid: uuid_hyphenated(self.player.id),
                    username: self.player.username.clone(),
                    client_ip: self.client_ip.clone(),
                    initial_server: owned(server),
                },
            ),
        );
        v.push(
            BridgeCommand::Register {
                username: self.player.username.clone(),
                uuid: self.player.id,
                server: owned(server),
                client_ip: self.client_ip.clone(),
                protocol_version: to_unsigned(self.client_version.protocol),
            },
        );
        v.push(BridgeCommand::Tunnel { server: owned(server) });
        assert(views(v@) == arrival(self@, server@).1);
        (Phase::Playing { server: owned(server) }, v)
    }

    fn move_to(&self, server: &str, announce: bool) -> (r: (Phase, Vec<BridgeCommand>))
        ensures
            step_is(r, moved(self@, server@, announce)),
    {
        let mut v: Vec<BridgeCommand> = Vec::new();
        if self.client_version.has_configuration {
            v.push(BridgeCommand::StartConfiguration);
        }
        v.push(BridgeCommand::UseNewBackend);
        v.push(
            BridgeCommand::UpdateServer {
                username: self.player.username.clone(),
                server: owned(server),
            },
        );
        if announce {
            v.push(self.news(server));
        }
        v.push(BridgeCommand::Tunnel { server: owned(server) });
        assert(views(v@) == moved(self@, server@, announce).1);
        (Phase::Playing { server: owned(server) }, v)
    }

    fn lose(&self, server: &str, reason: &Option<String>) -> (r: (Phase, Vec<BridgeCommand>))
        ensures
            step_is(r, lost(self@, server@, opt_text(*reason))),
    {
        match self.spare(server) {
            Some((target, config)) => {
                let why = or_string(reason, "Server closed");
                let notice = cat5(
                    "§eConnecting to fallback server '",
                    target.as_str(),
                    "'... (§c",
                    why.as_str(),
                    "§e)",
                );
                let v = vec![
                    BridgeCommand::SendChat(notice),
                    BridgeCommand::Login { server: target.clone(), config },
                ];
                assert(views(v@) == lost(self@, server@, opt_text(*reason)).1);
                (Phase::Recovering { server: owned(server), target }, v)
            },
            None => {
                let why = or_string(reason, "Lost connection to server");
                self.end_after(Some(BridgeCommand::Kick(why)), server)
            },
        }
    }

    fn leave_tunnel(&self, server: &str, exit: &TunnelExit) -> (r: (Phase, Vec<BridgeCommand>))
        ensures
            step_is(r, tunnel_over(self@, server@, exit@)),
    {
        match exit {
            TunnelExit::ClientDisconnected => {
                assert(Seq::<CommandModel>::empty() + farewell(self@, server@) == farewell(
                    self@,
                    server@,
                ));
                self.end_after(None, server)
            },
            TunnelExit::Transfer { host, port } => self.end_after(
                Some(BridgeCommand::SendTransfer { host: host.clone(), port: *port }),
                server,
            ),
            TunnelExit::Connect { server_name } => {
                let v = vec![self.ask(Some(owned(server)), server_name.as_str())];
                assert(views(v@) == tunnel_over(self@, server@, exit@).1);
                (Phase::AskingSwitch { server: owned(server) }, v)
            },
            TunnelExit::BackendDisconnected { reason } => self.lose(server, reason),
        }
    }

    fn begin_switch(&self, server: &str, decided: &ServerConnectEvent) -> (r: (
        Phase,
        Vec<BridgeCommand>,
    ))
        ensures
            step_is(r, switch_decided(self@, server@, decided@)),
    {
        if decided.cancelled {
            let why = or_string(&decided.cancel_reason, "Server switch cancelled by plugin");
            let v = vec![
                BridgeCommand::SendChat(cat2("§c", why.as_str())),
                BridgeCommand::Tunnel { server: owned(server) },
            ];
            assert(views(v@) == switch_decided(self@, server@, decided@).1);
            return (Phase::Playing { server: owned(server) }, v);
        }
        match self.servers.get(decided.target_server.as_str()) {
            None => {
                let notice = cat3(
                    "Server '",
                    decided.target_server.as_str(),
                    "' does not exist.",
                );
                self.end_after(Some(BridgeCommand::SendChat(notice)), server)
            },
            Some(config) => {
                let v = vec![
                    BridgeCommand::Login {
                        server: decided.target_server.clone(),
                        config: config.clone(),
                    },
                ];
                assert(views(v@) == switch_decided(self@, server@, decided@).1);
                (
                    Phase::Switching {
                        server: owned(server),
                        target: decided.target_server.clone(),
                    },
                    v,
                )
            },
        }
    }

    fn fail_switch(&self, server: &str, target: &str, e: &BridgeError) -> (r: (
        Phase,
        Vec<BridgeCommand>,
    ))
        ensures
            step_is(r, switch_failed(self@, server@, target@, e@)),
    {
        let mut notice = cat3("§cFailed to connect to server '", target, "': ");
        notice.append(e.message().as_str());
        let chat = BridgeCommand::SendChat(notice);
        match self.spare(target) {
            Some((fallback, config)) => {
                let v = vec![chat, BridgeCommand::Login { server: fallback.clone(), config }];
                assert(views(v@) == switch_failed(self@, server@, target@, e@).1);
                (Phase::SwitchFallback { server: owned(server), target: fallback }, v)
            },
            None => self.end_after(Some(chat), server),
        }
    }

    /// Takes an event and says how the stay goes on.
    pub fn step(&self, phase: Phase, event: &BridgeEvent) -> (r: (Phase, Vec<BridgeCommand>))
        ensures
            step_is(r, bridge_step(self@, phase@, event@)),
    {
        let ghost here = phase@;
        match (phase, event) {
            (Phase::Asking, BridgeEvent::Decided(d)) => self.begin_login(d),
            (Phase::LoggingIn { server }, BridgeEvent::LoggedIn(packet)) => {
                let v = vec![BridgeCommand::SendToClient(copy_bytes(packet))];
                assert(views(v@) == seq![CommandModel::SendToClient(packet@)]);
                (Phase::Greeting { server }, v)
            },
            (Phase::LoggingIn { server }, BridgeEvent::LoginFailed(e)) => {
                match self.spare(server.as_str()) {
                    Some((target, config)) => {
                        let v = vec![BridgeCommand::Login { server: target.clone(), config }];
                        assert(views(v@) == bridge_step(self@, here, event@).1);
                        (Phase::FallingBack { server: target }, v)
                    },
                    None => {
                        let v = vec![BridgeCommand::Fail(e.clone())];
                        assert(views(v@) == bridge_step(self@, here, event@).1);
                        (Phase::Ended, v)
                    },
                }
            },
            (Phase::FallingBack { server }, BridgeEvent::LoggedIn(packet)) => {
                let v = vec![BridgeCommand::SendToClient(copy_bytes(packet))];
                assert(views(v@) == seq![CommandModel::SendToClient(packet@)]);
                (Phase::Greeting { server }, v)
            },
            (Phase::FallingBack { .. }, BridgeEvent::LoginFailed(e)) => {
                let v = vec![BridgeCommand::Fail(e.clone())];
                assert(views(v@) == bridge_step(self@, here, event@).1);
                (Phase::Ended, v)
            },
            (Phase::Greeting { server }, BridgeEvent::Sent) => self.arrive(server.as_str()),
            (Phase::Greeting { .. }, BridgeEvent::SendFailed(t)) => {
                let v = vec![BridgeCommand::Fail(BridgeError::EncodeError(t.clone()))];
                assert(views(v@) == bridge_step(self@, here, event@).1);
                (Phase::Ended, v)
            },
            (Phase::Playing { server }, BridgeEvent::TunnelEnded(exit)) => self.leave_tunnel(
                server.as_str(),
                exit,
            ),
            (Phase::Playing { server }, BridgeEvent::TunnelFailed(e)) => self.lose(
                server.as_str(),
                &Some(e.message()),
            ),
            (Phase::AskingSwitch { server }, BridgeEvent::Decided(d)) => self.begin_switch(
                server.as_str(),
                d,
            ),
            (Phase::Switching { target, .. }, BridgeEvent::LoggedIn(_)) => self.move_to(
                target.as_str(),
                true,
            ),
            (Phase::Switching { server, target }, BridgeEvent::LoginFailed(e)) => self.fail_switch(
                server.as_str(),
                target.as_str(),
                e,
            ),
            (Phase::SwitchFallback { target, .. }, BridgeEvent::LoggedIn(_)) => self.move_to(
                target.as_str(),
                false,
            ),
            (Phase::SwitchFallback { server, .. }, BridgeEvent::LoginFailed(_)) => {
                let why = cat3(
                    "Lost connection to '",
                    server.as_str(),
                    "' and fallback unavailable",
                );
                self.end_after(Some(BridgeCommand::Kick(why)), server.as_str())
            },
            (Phase::Recovering { target, .. }, BridgeEvent::LoggedIn(_)) => self.move_to(
                target.as_str(),
                false,
            ),
            (Phase::Recovering { server, .. }, BridgeEvent::LoginFailed(e)) => {
                let mut why = cat3(
                    "Lost connection to '",
                    server.as_str(),
                    "' and fallback unavailable: ",
                );
                why.append(e.message().as_str());
                self.end_after(Some(BridgeCommand::Kick(why)), server.as_str())
            },
            (other, _) => {
                let v: Vec<BridgeCommand> = Vec::new();
                assert(views(v@) == Seq::<CommandModel>::empty());
                (other, v)
            },
        }
    }
}

// ---------------------------------------------------------------------------
// Laws of a stay
// ---------------------------------------------------------------------------

/// The sum of what each command weighs.
pub open spec fn weigh(c: Seq<CommandModel>, w: spec_fn(CommandModel) -> int) -> int
    decreases c.len(),
{
    if c.len() == 0 {
        0
    } else {
        weigh(c.drop_last(), w) + w(c.last())
    }
}

proof fn lemma_weigh_add(a: Seq<CommandModel>, b: Seq<CommandModel>, w: spec_fn(CommandModel) -> int)
    ensures
        weigh(a + b, w) == weigh(a, w) + weigh(b, w),
    decreases b.len(),
{
    if b.len() == 0 {
        assert(a + b == a);
    } else {
        lemma_weigh_add(a, b.drop_last(), w);
        assert((a + b).drop_last() == a + b.drop_last());
    }
}

/// What a command adds to the number of players online.
pub open spec fn online_change(c: CommandModel) -> int {
    match c {
        BridgeCommand::CountIn => 1,
        BridgeCommand::CountOut => -1,
        _ => 0,
    }
}

/// A command that ends the stay.
pub open spec fn ending(c: CommandModel) -> int {
    match c {
        BridgeCommand::Finish => 1,
        BridgeCommand::Fail(_) => 1,
        _ => 0,
    }
}

/// The server on which a phase has the player, once they are in.
pub open spec fn session_of(p: PhaseModel) -> Option<Seq<char>> {
    match p {
        Phase::Playing { server } => Some(server),
        Phase::AskingSwitch { server } => Some(server),
        Phase::Switching { server, .. } => Some(server),
        Phase::SwitchFallback { server, .. } => Some(server),
        Phase::Recovering { server, .. } => Some(server),
        _ => None,
    }
}

pub open spec fn online(p: PhaseModel) -> int {
    if session_of(p) is Some {
        1
    } else {
        0
    }
}

pub open spec fn over(p: PhaseModel) -> int {
    if p is Ended {
        1
    } else {
        0
    }
}

/// What the register of sessions holds of `username` after some commands, if it held `s` before.
pub open spec fn session_after(
    c: Seq<CommandModel>,
    username: Seq<char>,
    s: Option<Seq<char>>,
) -> Option<Seq<char>>
    decreases c.len(),
{
    if c.len() == 0 {
        s
    } else {
        let before = session_after(c.drop_last(), username, s);
        match c.last() {
            BridgeCommand::Register { username: u, server, .. } => if u == username {
                Some(server)
            } else {
                before
            },
            BridgeCommand::UpdateServer { username: u, server } => if u == username && before is Some {
                Some(server)
            } else {
                before
            },
            BridgeCommand::Unregister { username: u } => if u == username {
                None
            } else {
                before
            },
            _ => before,
        }
    }
}

proof fn lemma_session_add(
    a: Seq<CommandModel>,
    b: Seq<CommandModel>,
    u: Seq<char>,
    s: Option<Seq<char>>,
)
    ensures
        session_after(a + b, u, s) == session_after(b, u, session_after(a, u, s)),
    decreases b.len(),
{
    if b.len() == 0 {
        assert(a + b == a);
    } else {
        lemma_session_add(a, b.drop_last(), u, s);
        assert((a + b).drop_last() == a + b.drop_last());
    }
}

proof fn lemma_farewell(b: BridgeModel, server: Seq<char>, head: CommandModel, alone: bool)
    requires
        head is Kick || head is SendChat || head is SendTransfer,
    ensures
        ({
            let c = if alone {
                farewell(b, server)
            } else {
                seq![head] + farewell(b, server)
            };
            &&& weigh(c, |x: CommandModel| online_change(x)) == -1
            &&& weigh(c, |x: CommandModel| ending(x)) == 1
            &&& session_after(c, b.player.username, Some(server)) is None
        }),
{
    reveal_with_fuel(weigh, 5);
    reveal_with_fuel(session_after, 5);
    let f = farewell(b, server);
    let w1 = |x: CommandModel| online_change(x);
    let w2 = |x: CommandModel| ending(x);
    assert(f.drop_last().drop_last().drop_last().drop_last() == Seq::<CommandModel>::empty());
    lemma_weigh_add(seq![head], f, w1);
    lemma_weigh_add(seq![head], f, w2);
    lemma_session_add(seq![head], f, b.player.username, Some(server));
    assert(seq![head].drop_last() == Seq::<CommandModel>::empty());
}

proof fn lemma_arrival(b: BridgeModel, server: Seq<char>)
    ensures
        ({
            let c = arrival(b, server).1;
            &&& weigh(c, |x: CommandModel| online_change(x)) == 1
            &&& weigh(c, |x: CommandModel| ending(x)) == 0
            &&& session_after(c, b.player.username, None) == Some(server)
        }),
{
    reveal_with_fuel(weigh, 6);
    reveal_with_fuel(session_after, 6);
    let c = arrival(b, server).1;
    assert(c.drop_last().drop_last().drop_last().drop_last().drop_last() == Seq::<
        CommandModel,
    >::empty());
}

proof fn lemma_moved(b: BridgeModel, from: Seq<char>, server: Seq<char>, announce: bool)
    ensures
        ({
            let c = moved(b, server, announce).1;
            &&& weigh(c, |x: CommandModel| online_change(x)) == 0
            &&& weigh(c, |x: CommandModel| ending(x)) == 0
            &&& session_after(c, b.player.username, Some(from)) == Some(server)
        }),
{
    reveal_with_fuel(weigh, 6);
    reveal_with_fuel(session_after, 6);
    let c = moved(b, server, announce).1;
    let d = c.drop_last().drop_last().drop_last();
    if announce && b.version.has_configuration {
        assert(d.drop_last().drop_last() == Seq::<CommandModel>::empty());
    } else if announce || b.version.has_configuration {
        assert(d.drop_last() == Seq::<CommandModel>::empty());
    } else {
        assert(d == Seq::<CommandModel>::empty());
    }
}

/// Every step keeps three books: the number of players online, the register of sessions, and
/// the end of the stay, which comes once.
pub proof fn law_step_keeps_books(b: BridgeModel, phase: PhaseModel, event: BridgeEventModel)
    ensures
        ({
            let (next, commands) = bridge_step(b, phase, event);
            &&& weigh(commands, |x: CommandModel| online_change(x)) == online(next) - online(phase)
            &&& weigh(commands, |x: CommandModel| ending(x)) == over(next) - over(phase)
            &&& session_after(commands, b.player.username, session_of(phase)) == session_of(next)
        }),
{
    let (next, c) = bridge_step(b, phase, event);
    let u = b.player.username;
    reveal_with_fuel(weigh, 3);
    reveal_with_fuel(session_after, 3);
    if let Some(server) = session_of(phase) {
        if next is Ended {
            if c == farewell(b, server) {
                lemma_farewell(b, server, CommandModel::Kick(u), true);
            } else {
                lemma_farewell(b, server, c[0], false);
                assert(c == seq![c[0]] + farewell(b, server));
            }
        } else if event is LoggedIn && phase !is Playing && phase !is AskingSwitch {
            match phase {
                Phase::Switching { target, .. } => lemma_moved(b, server, target, true),
                Phase::SwitchFallback { target, .. } => lemma_moved(b, server, target, false),
                Phase::Recovering { target, .. } => lemma_moved(b, server, target, false),
                _ => {},
            }
        } else {
            assert(c.len() <= 2);
            if c.len() == 1 {
                assert(c.drop_last() == Seq::<CommandModel>::empty());
            } else if c.len() == 2 {
                assert(c.drop_last().drop_last() == Seq::<CommandModel>::empty());
            }
        }
    } else if session_of(next) is Some {
        if let Phase::Greeting { server } = phase {
            lemma_arrival(b, server);
        }
    } else {
        assert(c.len() <= 1);
        if c.len() == 1 {
            assert(c.drop_last() == Seq::<CommandModel>::empty());
        }
    }
}

/// A stay so far: all events one after the other, and all commands that they gave.
pub open spec fn stay(b: BridgeModel, phase: PhaseModel, events: Seq<BridgeEventModel>) -> StepModel
    decreases events.len(),
{
    if events.len() == 0 {
        (phase, Seq::empty())
    } else {
        let (p, c) = stay(b, phase, events.drop_last());
        let (q, d) = bridge_step(b, p, events.last());
        (q, c + d)
    }
}

/// Over a whole stay, whatever happens in it: a player counts as online exactly while the
/// register holds their session, the register names the server that they are on, and at the end
/// they are struck out, counted out, and the stay is ended once.
pub proof fn law_stay_keeps_books(b: BridgeModel, events: Seq<BridgeEventModel>)
    ensures
        ({
            let (last, commands) = stay(b, Phase::Asking, events);
            &&& weigh(commands, |x: CommandModel| online_change(x)) == online(last)
            &&& weigh(commands, |x: CommandModel| ending(x)) == over(last)
            &&& session_after(commands, b.player.username, None) == session_of(last)
        }),
    decreases events.len(),
{
    if events.len() > 0 {
        law_stay_keeps_books(b, events.drop_last());
        let (p, c) = stay(b, Phase::Asking, events.drop_last());
        let (q, d) = bridge_step(b, p, events.last());
        law_step_keeps_books(b, p, events.last());
        lemma_weigh_add(c, d, |x: CommandModel| online_change(x));
        lemma_weigh_add(c, d, |x: CommandModel| ending(x));
        lemma_session_add(c, d, b.player.username, None);
    }
}

/// A stay that has ended stays ended.
pub proof fn law_ended_is_final(b: BridgeModel, event: BridgeEventModel)
    ensures
        bridge_step(b, Phase::Ended, event) == (PhaseModel::Ended, Seq::<CommandModel>::empty()),
{
}

/// The server that has just failed is never the one that a player is rerouted to.
pub proof fn law_no_reroute_to_failed_server(
    b: BridgeModel,
    server: Seq<char>,
    reason: Option<Seq<char>>,
    e: BridgeErrorModel,
)
    ensures
        lost(b, server, reason).0 matches Phase::Recovering { server: s, target } ==> s == server
            && target != server,
        bridge_step(b, Phase::LoggingIn { server }, BridgeEvent::LoginFailed(e)).0 matches Phase::FallingBack {
            server: target,
        } ==> target != server,
        forall|at: Seq<char>|
            (#[trigger] switch_failed(b, at, server, e)).0 matches Phase::SwitchFallback {
                server: s,
                target,
            } ==> target != server,
{
}

/// An event that a phase does not wait for.
pub open spec fn unexpected(phase: PhaseModel, event: BridgeEventModel) -> bool {
    match phase {
        Phase::Asking => event !is Decided,
        Phase::AskingSwitch { .. } => event !is Decided,
        Phase::Greeting { .. } => event !is Sent && event !is SendFailed,
        Phase::Playing { .. } => event !is TunnelEnded && event !is TunnelFailed,
        Phase::Ended => true,
        _ => event !is LoggedIn && event !is LoginFailed,
    }
}

/// What no phase waits for changes nothing and asks for nothing.
pub proof fn law_unexpected_events_are_ignored(
    b: BridgeModel,
    phase: PhaseModel,
    event: BridgeEventModel,
)
    requires
        unexpected(phase, event),
    ensures
        bridge_step(b, phase, event).0 == phase,
        bridge_step(b, phase, event).1.len() == 0,
{
}

/// A stay begins with the question to plugins whether this player may go to the first server,
/// from nowhere.
pub proof fn law_stay_begins_with_a_question(b: BridgeModel)
    ensures
        start_step(b).0 is Asking,
        start_step(b).1.len() == 1,
        start_step(b).1[0] matches BridgeCommand::FireServerConnect(e) && e.target_server
            == b.server_name && e.current_server is None && e.username == b.player.username
            && e.uuid == uuid_text(b.player.id) && !e.cancelled && e.cancel_reason is None,
{
}

/// The first login goes to the server that plugins have decided on: with the first server's own
/// configuration where it is that server, and with the table's entry where it is another one that
/// is configured.
pub proof fn law_first_login_goes_where_decided(
    b: BridgeModel,
    d: ServerConnectModel,
    config: BackendModel,
)
    requires
        !d.cancelled,
        crate::table::distinct_keys(b.servers),
    ensures
        ({
            let (next, c) = bridge_step(b, Phase::Asking, BridgeEvent::Decided(d));
            &&& next matches Phase::LoggingIn { server } && server == d.target_server
            &&& c.len() == 1
            &&& c[0] matches BridgeCommand::Login { server, config: used }
            &&& server == d.target_server
            &&& d.target_server == b.server_name ==> used == b.config
            &&& d.target_server != b.server_name && b.servers.contains((d.target_server, config))
                ==> used == config
            &&& (forall|x: BackendModel| !#[trigger] b.servers.contains((d.target_server, x)))
                ==> used == b.config
        }),
{
    lemma_entry(b.servers, d.target_server, config);
}

proof fn lemma_entry(servers: Servers, name: Seq<char>, config: BackendModel)
    requires
        crate::table::distinct_keys(servers),
    ensures
        servers.contains((name, config)) <==> lookup(servers, name) == Some(config),
        lookup(servers, name) matches Some(c) ==> servers.contains((name, c)),
{
    crate::table::lemma_lookup_some(servers, name);
    if servers.contains((name, config)) {
        let i = choose|i: int| 0 <= i < servers.len() && servers[i] == (name, config);
        assert forall|j: int| 0 <= j < i implies servers[j].0 != name by {
            assert(servers[i].0 == name);
        }
        crate::table::lemma_lookup_at(servers, name, i);
    }
}

/// A first connection that plugins forbid ends the stay with their reason, and nothing else
/// happens.
pub proof fn law_forbidden_first_login_ends(b: BridgeModel, d: ServerConnectModel)
    requires
        d.cancelled,
    ensures
        ({
            let (next, c) = bridge_step(b, Phase::Asking, BridgeEvent::Decided(d));
            &&& next is Ended
            &&& c.len() == 1
            &&& c[0] matches BridgeCommand::Fail(BridgeError::VineError(why))
            &&& d.cancel_reason matches Some(r) ==> why == r
        }),
{
}

/// A first login that fails is tried once more at the fallback, under the fallback's own name and
/// configuration; where there is none other than the server that failed, and where the fallback
/// fails too, the stay ends with the error that came last.
pub proof fn law_failed_first_login_tries_the_fallback(
    b: BridgeModel,
    server: Seq<char>,
    e: BridgeErrorModel,
)
    ensures
        ({
            let (next, c) = bridge_step(
                b,
                Phase::LoggingIn { server },
                BridgeEvent::LoginFailed(e),
            );
            &&& c.len() == 1
            &&& (b.fallback is Some && b.fallback->Some_0.0 != server) ==> {
                &&& next == PhaseModel::FallingBack { server: b.fallback->Some_0.0 }
                &&& c[0] == (CommandModel::Login {
                    server: b.fallback->Some_0.0,
                    config: b.fallback->Some_0.1,
                })
            }
            &&& (b.fallback is None || b.fallback->Some_0.0 == server) ==> next is Ended && c[0]
                == CommandModel::Fail(e)
        }),
        ({
            let (next, c) = bridge_step(
                b,
                Phase::FallingBack { server },
                BridgeEvent::LoginFailed(e),
            );
            next is Ended && c.len() == 1 && c[0] == CommandModel::Fail(e)
        }),
{
}

/// The packet by which a backend accepts the first login reaches the client as it came, and the
/// player is on the server that was logged in at.
pub proof fn law_client_is_greeted_by_its_backend(b: BridgeModel, server: Seq<char>, packet: Seq<u8>)
    ensures
        ({
            let (next, c) = bridge_step(
                b,
                Phase::LoggingIn { server },
                BridgeEvent::LoggedIn(packet),
            );
            &&& next matches Phase::Greeting { server: s } && s == server
            &&& c.len() == 1 && c[0] == CommandModel::SendToClient(packet)
        }),
        ({
            let (next, c) = bridge_step(
                b,
                Phase::FallingBack { server },
                BridgeEvent::LoggedIn(packet),
            );
            &&& next matches Phase::Greeting { server: s } && s == server
            &&& c.len() == 1 && c[0] == CommandModel::SendToClient(packet)
        }),
        forall|t: Seq<char>|
            ({
                let (next, c) = #[trigger] bridge_step(
                    b,
                    Phase::Greeting { server },
                    BridgeEvent::SendFailed(t),
                );
                &&& next is Ended
                &&& c.len() == 1 && c[0] == CommandModel::Fail(BridgeError::EncodeError(t))
            }),
{
}

/// A player who has arrived is counted, announced to plugins and registered under their own name,
/// identifier and address and for the server that they are on; then packets flow there.
pub proof fn law_arrival_is_announced(b: BridgeModel, server: Seq<char>)
    requires
        b.version.protocol >= 0,
    ensures
        ({
            let (next, c) = bridge_step(b, Phase::Greeting { server }, BridgeEvent::Sent);
            &&& next matches Phase::Playing { server: s } && s == server
            &&& c.len() == 5
            &&& c[0] is CountIn
            &&& c[1] matches BridgeCommand::FireServerConnected(e) && e.uuid == uuid_text(
                b.player.id,
            ) && e.username == b.player.username && e.server_name == server
            &&& c[2] matches BridgeCommand::FirePlayerJoin(e) && e.uuid == uuid_text(b.player.id)
                && e.username == b.player.username && e.client_ip == b.client_ip
                && e.initial_server == server
            &&& c[3] matches BridgeCommand::Register {
                username,
                uuid,
                server: s,
                client_ip,
                protocol_version,
            }
            &&& username == b.player.username && uuid == b.player.id && s == server && client_ip
                == b.client_ip && protocol_version == b.version.protocol
            &&& c[4] matches BridgeCommand::Tunnel { server: s } && s == server
        }),
{
}

/// On a request for a switch, plugins are asked about this player, from the server that they are
/// on to the one that they want. Nothing else happens yet.
pub proof fn law_switch_is_asked_about(b: BridgeModel, server: Seq<char>, wanted: Seq<char>)
    ensures
        ({
            let (next, c) = bridge_step(
                b,
                Phase::Playing { server },
                BridgeEvent::TunnelEnded(TunnelExit::Connect { server_name: wanted }),
            );
            &&& next matches Phase::AskingSwitch { server: s } && s == server
            &&& c.len() == 1
            &&& c[0] matches BridgeCommand::FireServerConnect(e)
            &&& e.target_server == wanted && e.current_server == Some(server) && e.username
                == b.player.username && e.uuid == uuid_text(b.player.id) && !e.cancelled
                && e.cancel_reason is None
        }),
{
}

/// A switch that is allowed logs the player in at the server decided on, with the configuration
/// that the table of servers holds under that server's name.
pub proof fn law_switch_logs_in_at_its_target(
    b: BridgeModel,
    server: Seq<char>,
    d: ServerConnectModel,
    config: BackendModel,
)
    requires
        !d.cancelled,
        crate::table::distinct_keys(b.servers),
        b.servers.contains((d.target_server, config)),
    ensures
        ({
            let (next, c) = bridge_step(
                b,
                Phase::AskingSwitch { server },
                BridgeEvent::Decided(d),
            );
            &&& next matches Phase::Switching { server: s, target } && s == server && target
                == d.target_server
            &&& c.len() == 1
            &&& c[0] matches BridgeCommand::Login { server: s, config: used } && s
                == d.target_server && used == config
        }),
{
    lemma_entry(b.servers, d.target_server, config);
}

/// A switch that plugins forbid leaves the player on their server: they are told why, and packets
/// flow as before.
pub proof fn law_forbidden_switch_changes_nothing(
    b: BridgeModel,
    server: Seq<char>,
    d: ServerConnectModel,
)
    requires
        d.cancelled,
    ensures
        ({
            let (next, c) = bridge_step(
                b,
                Phase::AskingSwitch { server },
                BridgeEvent::Decided(d),
            );
            &&& next matches Phase::Playing { server: s } && s == server
            &&& c.len() == 2
            &&& c[0] matches BridgeCommand::SendChat(t) && (d.cancel_reason matches Some(r)
                ==> holds_part(t, r))
            &&& c[1] matches BridgeCommand::Tunnel { server: s } && s == server
        }),
{
    if let Some(r) = d.cancel_reason {
        crate::text::lemma_holds_part("§c"@, r, Seq::empty());
    }
}

/// The commands with which a stay ends: plugins hear of it with the player's last server, the
/// session is struck out, the player counted out, and the stay is finished.
pub open spec fn says_goodbye(b: BridgeModel, server: Seq<char>, c: Seq<CommandModel>) -> bool {
    let n = c.len();
    &&& n >= 4
    &&& c[n - 4] matches BridgeCommand::FirePlayerDisconnect(e)
    &&& e.uuid == uuid_text(b.player.id) && e.username == b.player.username && e.last_server
        == Some(server)
    &&& c[n - 3] matches BridgeCommand::Unregister { username }
    &&& username == b.player.username
    &&& c[n - 2] is CountOut
    &&& c[n - 1] is Finish
}

/// A switch to a server that is not configured ends the stay; the player is told its name.
pub proof fn law_switch_to_nowhere_ends(b: BridgeModel, server: Seq<char>, d: ServerConnectModel)
    requires
        !d.cancelled,
        forall|x: BackendModel| !#[trigger] b.servers.contains((d.target_server, x)),
    ensures
        ({
            let (next, c) = bridge_step(
                b,
                Phase::AskingSwitch { server },
                BridgeEvent::Decided(d),
            );
            &&& next is Ended
            &&& c.len() == 5
            &&& c[0] matches BridgeCommand::SendChat(t) && holds_part(t, d.target_server)
            &&& says_goodbye(b, server, c)
        }),
{
    crate::table::lemma_lookup_some(b.servers, d.target_server);
    crate::text::lemma_holds_part("Server '"@, d.target_server, "' does not exist."@);
}

/// A player who has been logged in at another backend is moved there: the client is configured
/// anew where its version can be, the new backend is used, the register names the new server, and
/// packets flow there. Plugins hear of a switch that has succeeded.
pub proof fn law_player_moves_to_the_new_backend(
    b: BridgeModel,
    phase: PhaseModel,
    server: Seq<char>,
    target: Seq<char>,
    packet: Seq<u8>,
)
    requires
        phase == (PhaseModel::Switching { server, target }) || phase
            == (PhaseModel::SwitchFallback { server, target }) || phase
            == (PhaseModel::Recovering { server, target }),
    ensures
        ({
            let (next, c) = bridge_step(b, phase, BridgeEvent::LoggedIn(packet));
            let k: int = if b.version.has_configuration {
                1
            } else {
                0
            };
            let n: int = if phase is Switching {
                1
            } else {
                0
            };
            &&& next matches Phase::Playing { server: s } && s == target
            &&& c.len() == k + 3 + n
            &&& k == 1 ==> c[0] is StartConfiguration
            &&& c[k] is UseNewBackend
            &&& c[k + 1] matches BridgeCommand::UpdateServer { username, server: s }
            &&& username == b.player.username && s == target
            &&& n == 1 ==> (c[k + 2] matches BridgeCommand::FireServerConnected(e)
                && e.server_name == target && e.username == b.player.username && e.uuid
                == uuid_text(b.player.id))
            &&& c[c.len() - 1] matches BridgeCommand::Tunnel { server: s } && s == target
        }),
{
}

/// A switch that fails is told to the player with the server's name and the error. The fallback
/// is tried under its own name and configuration, if it is not the server that has just failed;
/// otherwise the stay ends.
pub proof fn law_failed_switch_tries_the_fallback(
    b: BridgeModel,
    server: Seq<char>,
    target: Seq<char>,
    e: BridgeErrorModel,
)
    ensures
        ({
            let (next, c) = bridge_step(
                b,
                Phase::Switching { server, target },
                BridgeEvent::LoginFailed(e),
            );
            &&& c.len() > 0
            &&& c[0] matches BridgeCommand::SendChat(t) && holds_part(t, target) && holds_part(
                t,
                bridge_error_words(e),
            )
            &&& (b.fallback is Some && b.fallback->Some_0.0 != target) ==> {
                &&& c.len() == 2
                &&& next == (PhaseModel::SwitchFallback {
                    server,
                    target: b.fallback->Some_0.0,
                })
                &&& c[1] == (CommandModel::Login {
                    server: b.fallback->Some_0.0,
                    config: b.fallback->Some_0.1,
                })
            }
            &&& (b.fallback is None || b.fallback->Some_0.0 == target) ==> next is Ended && c.len()
                == 5 && says_goodbye(b, server, c)
        }),
{
    let head = "§cFailed to connect to server '"@;
    let words = bridge_error_words(e);
    crate::text::lemma_holds_part(head, target, "': "@ + words);
    assert(head + target + ("': "@ + words) == head + target + "': "@ + words);
    crate::text::lemma_holds_part(head + target + "': "@, words, Seq::empty());
}

/// A player whose backend goes away is logged in at the fallback, under its own name and with its
/// own configuration, if it is not the server that has gone; they are told its name and the
/// reason. Without such a fallback they are disconnected with the reason, and the stay ends.
pub proof fn law_lost_player_is_taken_to_the_fallback(
    b: BridgeModel,
    server: Seq<char>,
    event: BridgeEventModel,
    reason: Option<Seq<char>>,
)
    requires
        event == BridgeEventModel::TunnelEnded(TunnelExit::BackendDisconnected { reason }) || (
        event matches BridgeEvent::TunnelFailed(e) && reason == Some(bridge_error_words(e))),
    ensures
        ({
            let (next, c) = bridge_step(b, Phase::Playing { server }, event);
            &&& (b.fallback is Some && b.fallback->Some_0.0 != server) ==> {
                &&& next == (PhaseModel::Recovering { server, target: b.fallback->Some_0.0 })
                &&& c.len() == 2
                &&& c[0] matches BridgeCommand::SendChat(t)
                &&& holds_part(t, b.fallback->Some_0.0)
                &&& reason matches Some(r) ==> holds_part(t, r)
                &&& c[1] == (CommandModel::Login {
                    server: b.fallback->Some_0.0,
                    config: b.fallback->Some_0.1,
                })
            }
            &&& (b.fallback is None || b.fallback->Some_0.0 == server) ==> {
                &&& next is Ended
                &&& c.len() == 5
                &&& c[0] matches BridgeCommand::Kick(t)
                &&& reason matches Some(r) ==> t == r
                &&& says_goodbye(b, server, c)
            }
        }),
{
    if let Some((name, config)) = b.fallback {
        let head = "§eConnecting to fallback server '"@;
        let mid = "'... (§c"@;
        let why = or_text(reason, "Server closed"@);
        let tail = "§e)"@;
        assert(head + name + (mid + why + tail) == head + name + mid + why + tail);
        crate::text::lemma_holds_part(head, name, mid + why + tail);
        crate::text::lemma_holds_part(head + name + mid, why, tail);
    }
}

/// A fallback that cannot be reached either ends the stay: the client is told which server was
/// lost.
pub proof fn law_unreachable_fallback_ends(
    b: BridgeModel,
    phase: PhaseModel,
    server: Seq<char>,
    target: Seq<char>,
    e: BridgeErrorModel,
)
    requires
        phase == (PhaseModel::SwitchFallback { server, target }) || phase
            == (PhaseModel::Recovering { server, target }),
    ensures
        ({
            let (next, c) = bridge_step(b, phase, BridgeEvent::LoginFailed(e));
            &&& next is Ended
            &&& c.len() == 5
            &&& c[0] matches BridgeCommand::Kick(t)
            &&& holds_part(t, server)
            &&& phase is Recovering ==> holds_part(t, bridge_error_words(e))
            &&& says_goodbye(b, server, c)
        }),
{
    let head = "Lost connection to '"@;
    let words = bridge_error_words(e);
    let mid = "' and fallback unavailable: "@;
    crate::text::lemma_holds_part(head, server, "' and fallback unavailable"@);
    crate::text::lemma_holds_part(head, server, mid + words);
    assert(head + server + (mid + words) == head + server + mid + words);
    crate::text::lemma_holds_part(head + server + mid, words, Seq::empty());
}

/// A client that leaves, or is transferred, ends the stay; a transfer names the host and the port
/// that were asked for.
pub proof fn law_leaving_ends_the_stay(b: BridgeModel, server: Seq<char>, host: Seq<char>, port: u16)
    ensures
        ({
            let (next, c) = bridge_step(
                b,
                Phase::Playing { server },
                BridgeEvent::TunnelEnded(TunnelExit::ClientDisconnected),
            );
            next is Ended && c.len() == 4 && says_goodbye(b, server, c)
        }),
        ({
            let (next, c) = bridge_step(
                b,
                Phase::Playing { server },
                BridgeEvent::TunnelEnded(TunnelExit::Transfer { host, port }),
            );
            &&& next is Ended && c.len() == 5
            &&& c[0] matches BridgeCommand::SendTransfer { host: h, port: p } && h == host && p
                == port
            &&& says_goodbye(b, server, c)
        }),
{
}

/// Whatever the event, a login goes to a server under that server's own configuration: the first
/// one as plugins have decided, every later one by the table of servers or by the fallback.
pub open spec fn rightly_configured(
    b: BridgeModel,
    phase: PhaseModel,
    server: Seq<char>,
    config: BackendModel,
) -> bool {
    ||| b.servers.contains((server, config))
    ||| b.fallback == Some((server, config))
    ||| phase is Asking && config == b.config
}

pub proof fn law_every_login_is_rightly_configured(
    b: BridgeModel,
    phase: PhaseModel,
    event: BridgeEventModel,
    i: int,
)
    requires
        0 <= i < bridge_step(b, phase, event).1.len(),
        bridge_step(b, phase, event).1[i] is Login,
    ensures
        bridge_step(b, phase, event).1[i] matches BridgeCommand::Login { server, config }
            && rightly_configured(b, phase, server, config),
        phase is AskingSwitch ==> (bridge_step(b, phase, event).1[i] matches BridgeCommand::Login {
            server,
            config,
        } && b.servers.contains((server, config))),
        phase !is Asking && phase !is AskingSwitch ==> (bridge_step(
            b,
            phase,
            event,
        ).1[i] matches BridgeCommand::Login { server, config } && b.fallback == Some(
            (server, config),
        )),
{
    if let BridgeEvent::Decided(d) = event {
        crate::table::lemma_lookup_some(b.servers, d.target_server);
    }
}

/// Over a whole stay, every login is rightly configured, and the first server's configuration is
/// used without the table's leave only by the login that comes first.
pub proof fn law_stay_logs_in_rightly(b: BridgeModel, events: Seq<BridgeEventModel>, i: int)
    requires
        0 <= i < stay(b, Phase::Asking, events).1.len(),
        stay(b, Phase::Asking, events).1[i] is Login,
    ensures
        ({
            let c = stay(b, Phase::Asking, events).1;
            &&& c[i] matches BridgeCommand::Login { server, config }
            &&& b.servers.contains((server, config)) || b.fallback == Some((server, config)) || (
            config == b.config && forall|j: int| 0 <= j < i ==> !((#[trigger] c[j]) is Login))
        }),
    decreases events.len(),
{
    let front = events.drop_last();
    let (p, c) = stay(b, Phase::Asking, front);
    let (q, d) = bridge_step(b, p, events.last());
    let all = c + d;
    assert(stay(b, Phase::Asking, events).1 == all);
    if i < c.len() {
        law_stay_logs_in_rightly(b, front, i);
        assert forall|j: int| 0 <= j < i implies all[j] == c[j] by {}
    } else {
        law_every_login_is_rightly_configured(b, p, events.last(), i - c.len());
        if p is Asking {
            lemma_asking_has_no_login(b, front);
            assert(d.len() <= 1);
            assert forall|j: int| 0 <= j < i implies !((#[trigger] all[j]) is Login) by {
                assert(all[j] == c[j]);
            }
        }
    }
}

proof fn lemma_asking_has_no_login(b: BridgeModel, events: Seq<BridgeEventModel>)
    requires
        stay(b, Phase::Asking, events).0 is Asking,
    ensures
        forall|j: int|
            0 <= j < stay(b, Phase::Asking, events).1.len() ==> !((#[trigger] stay(
                b,
                Phase::Asking,
                events,
            ).1[j]) is Login),
    decreases events.len(),
{
    if events.len() > 0 {
        let front = events.drop_last();
        let (p, c) = stay(b, Phase::Asking, front);
        let (q, d) = bridge_step(b, p, events.last());
        assert(p is Asking);
        lemma_asking_has_no_login(b, front);
        assert(d.len() == 0);
        assert(c + d == c);
    }
}

/// A bridge starts and goes on as the machine of its own stay does.
pub proof fn law_bridge_runs_its_machine(
    b: BackendBridge,
    phase: Phase,
    event: BridgeEvent,
    first: (Phase, Vec<BridgeCommand>),
    r: (Phase, Vec<BridgeCommand>),
)
    requires
        call_ensures(BackendBridge::start, (&b,), first),
        call_ensures(BackendBridge::step, (&b, phase, &event), r),
    ensures
        first.0@ == start_step(b@).0,
        views(first.1@) == start_step(b@).1,
        r.0@ == bridge_step(b@, phase@, event@).0,
        views(r.1@) == bridge_step(b@, phase@, event@).1,
{
}

/// What a bridge decides by is what it was made with.
pub proof fn law_bridge_is_what_it_was_made_with(b: BackendBridge)
    ensures
        b@.server_name == b.server_name@,
        b@.config == b.config@,
        b@.client_ip == b.client_ip@,
        b@.player == b.player@,
        b@.servers == b.servers@,
        b@.version == b.client_version,
        b.fallback_server is None <==> b@.fallback is None,
        b.fallback_server matches Some((n, c)) ==> b@.fallback == Some((n@, c@)),
{
}

} // verus!
