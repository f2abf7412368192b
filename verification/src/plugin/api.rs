//! What plugins see: their metadata, and the events they are told of.
use vstd::prelude::*;
use vstd::string::*;

use crate::config::copy_opt;
use crate::text::opt_text;

verus! {

broadcast use vstd::seq::group_seq_axioms;

pub fn copy_bytes(v: &Vec<u8>) -> (r: Vec<u8>)
    ensures
        r@ == v@,
{
    crate::codec::slice_of(v.as_slice(), 0, v.len())
}

#[derive(Debug, Clone, PartialEq, Eq)]
pub struct PluginMetadata {
    pub name: String,
    pub version: String,
    pub authors: Vec<String>,
    pub description: Option<String>,
    pub dependencies: Vec<String>,
}

/// What a plugin has registered since it was loaded.
#[derive(Debug, PartialEq, Eq)]
pub struct PluginContext {
    pub metadata: PluginMetadata,
    pub data_folder: String,
    pub registered_commands: Vec<u32>,
    pub registered_events: Vec<(u32, EventType, EventPriority)>,
}

impl PluginContext {
    pub fn new(metadata: PluginMetadata, data_folder: String) -> (r: Self)
        ensures
            r.metadata == metadata,
            r.data_folder == data_folder,
            r.registered_commands@ == Seq::<u32>::empty(),
            r.registered_events@ == Seq::<(u32, EventType, EventPriority)>::empty(),
    {
        let registered_commands: Vec<u32> = Vec::new();
        let registered_events: Vec<(u32, EventType, EventPriority)> = Vec::new();
        assert(registered_commands@ =~= Seq::empty());
        assert(registered_events@ =~= Seq::empty());
        PluginContext { metadata, data_folder, registered_commands, registered_events }
    }

    /// The plugin has registered for an event.
    pub fn on_event_registered(&mut self, handler_id: u32, kind: EventType, priority: EventPriority)
        ensures
            final(self).registered_events@ == old(self).registered_events@.push(
                (handler_id, kind, priority),
            ),
            final(self).registered_commands@ == old(self).registered_commands@,
            final(self).metadata == old(self).metadata,
            final(self).data_folder == old(self).data_folder,
    {
        self.registered_events.push((handler_id, kind, priority));
    }

    /// The plugin has registered a command.
    pub fn on_command_registered(&mut self, command_id: u32)
        ensures
            final(self).registered_commands@ == old(self).registered_commands@.push(command_id),
            final(self).registered_events@ == old(self).registered_events@,
            final(self).metadata == old(self).metadata,
            final(self).data_folder == old(self).data_folder,
    {
        self.registered_commands.push(command_id);
    }
}

/// When a plugin is told of an event, from first to last.
#[derive(Debug, Clone, Copy, PartialEq, Eq, PartialOrd, Ord, Hash, Structural)]
pub enum EventPriority {
    Lowest,
    Low,
    Normal,
    High,
    Highest,
    Monitor,
}

impl EventPriority {
    /// The place of a priority, counted from zero.
    pub open spec fn spec_rank(self) -> u8 {
        match self {
            EventPriority::Lowest => 0,
            EventPriority::Low => 1,
            EventPriority::Normal => 2,
            EventPriority::High => 3,
            EventPriority::Highest => 4,
            EventPriority::Monitor => 5,
        }
    }

    #[verifier::when_used_as_spec(spec_rank)]
    pub fn rank(self) -> (r: u8)
        ensures
            r == self.spec_rank(),
    {
        match self {
            EventPriority::Lowest => 0,
            EventPriority::Low => 1,
            EventPriority::Normal => 2,
            EventPriority::High => 3,
            EventPriority::Highest => 4,
            EventPriority::Monitor => 5,
        }
    }
}

#[derive(Debug, Clone, Copy, PartialEq, Eq, Hash, Structural)]
pub enum EventType {
    ProxyPing,
    PlayerPreLogin,
    PlayerLogin,
    PlayerJoin,
    ServerConnect,
    ServerConnected,
    PlayerDisconnect,
    PlayerChat,
    PlayerCommand,
    PluginMessage,
}

/// A server list ping; plugins may change what is shown.
#[derive(Debug, PartialEq, Eq)]
pub struct ProxyPingEvent<S = String> {
    pub client_ip: S,
    pub protocol_version: u32,
    pub virtual_host: S,
    pub motd: S,
    pub max_players: u32,
    pub online_players: u32,
    pub version_name: S,
}

pub type ProxyPingModel = ProxyPingEvent<Seq<char>>;

impl View for ProxyPingEvent {
    type V = ProxyPingModel;

    open spec fn view(&self) -> ProxyPingModel {
        ProxyPingEvent {
            client_ip: self.client_ip@,
            protocol_version: self.protocol_version,
            virtual_host: self.virtual_host@,
            motd: self.motd@,
            max_players: self.max_players,
            online_players: self.online_players,
            version_name: self.version_name@,
        }
    }
}

impl Clone for ProxyPingEvent {
    fn clone(&self) -> (r: Self)
        ensures
            r@ == self@,
    {
        ProxyPingEvent {
            client_ip: self.client_ip.clone(),
            protocol_version: self.protocol_version,
            virtual_host: self.virtual_host.clone(),
            motd: self.motd.clone(),
            max_players: self.max_players,
            online_players: self.online_players,
            version_name: self.version_name.clone(),
        }
    }
}

/// A player asks to log in and has not been authenticated.
#[derive(Debug, PartialEq, Eq)]
pub struct PlayerPreLoginEvent<S = String> {
    pub client_ip: S,
    pub username: S,
    pub protocol_version: u32,
    pub virtual_host: S,
    pub cancelled: bool,
    pub cancel_reason: Option<S>,
}

pub type PlayerPreLoginModel = PlayerPreLoginEvent<Seq<char>>;

impl View for PlayerPreLoginEvent {
    type V = PlayerPreLoginModel;

    open spec fn view(&self) -> PlayerPreLoginModel {
        PlayerPreLoginEvent {
            client_ip: self.client_ip@,
            username: self.username@,
            protocol_version: self.protocol_version,
            virtual_host: self.virtual_host@,
            cancelled: self.cancelled,
            cancel_reason: opt_text(self.cancel_reason),
        }
    }
}

impl Clone for PlayerPreLoginEvent {
    fn clone(&self) -> (r: Self)
        ensures
            r@ == self@,
    {
        PlayerPreLoginEvent {
            client_ip: self.client_ip.clone(),
            username: self.username.clone(),
            protocol_version: self.protocol_version,
            virtual_host: self.virtual_host.clone(),
            cancelled: self.cancelled,
            cancel_reason: copy_opt(&self.cancel_reason),
        }
    }
}

/// A player has been authenticated.
#[derive(Debug, PartialEq, Eq)]
pub struct PlayerLoginEvent<S = String> {
    pub uuid: S,
    pub username: S,
    pub client_ip: S,
    pub cancelled: bool,
    pub cancel_reason: Option<S>,
}

pub type PlayerLoginModel = PlayerLoginEvent<Seq<char>>;

impl View for PlayerLoginEvent {
    type V = PlayerLoginModel;

    open spec fn view(&self) -> PlayerLoginModel {
        PlayerLoginEvent {
            uuid: self.uuid@,
            username: self.username@,
            client_ip: self.client_ip@,
            cancelled: self.cancelled,
            cancel_reason: opt_text(self.cancel_reason),
        }
    }
}

impl Clone for PlayerLoginEvent {
    fn clone(&self) -> (r: Self)
        ensures
            r@ == self@,
    {
        PlayerLoginEvent {
            uuid: self.uuid.clone(),
            username: self.username.clone(),
            client_ip: self.client_ip.clone(),
            cancelled: self.cancelled,
            cancel_reason: copy_opt(&self.cancel_reason),
        }
    }
}

/// A player has reached their first server.
#[derive(Debug, PartialEq, Eq)]
pub struct PlayerJoinEvent<S = String> {
    pub uuid: S,
    pub username: S,
    pub client_ip: S,
    pub initial_server: S,
}

pub type PlayerJoinModel = PlayerJoinEvent<Seq<char>>;

impl View for PlayerJoinEvent {
    type V = PlayerJoinModel;

    open spec fn view(&self) -> PlayerJoinModel {
        PlayerJoinEvent {
            uuid: self.uuid@,
            username: self.username@,
            client_ip: self.client_ip@,
            initial_server: self.initial_server@,
        }
    }
}

impl Clone for PlayerJoinEvent {
    fn clone(&self) -> (r: Self)
        ensures
            r@ == self@,
    {
        PlayerJoinEvent {
            uuid: self.uuid.clone(),
            username: self.username.clone(),
            client_ip: self.client_ip.clone(),
            initial_server: self.initial_server.clone(),
        }
    }
}

/// A player is about to be connected to a server.
#[derive(Debug, PartialEq, Eq)]
pub struct ServerConnectEvent<S = String> {
    pub uuid: S,
    pub username: S,
    pub current_server: Option<S>,
    pub target_server: S,
    pub cancelled: bool,
    pub cancel_reason: Option<S>,
}

pub type ServerConnectModel = ServerConnectEvent<Seq<char>>;

impl View for ServerConnectEvent {
    type V = ServerConnectModel;

    open spec fn view(&self) -> ServerConnectModel {
        ServerConnectEvent {
            uuid: self.uuid@,
            username: self.username@,
            current_server: opt_text(self.current_server),
            target_server: self.target_server@,
            cancelled: self.cancelled,
            cancel_reason: opt_text(self.cancel_reason),
        }
    }
}

impl Clone for ServerConnectEvent {
    fn clone(&self) -> (r: Self)
        ensures
            r@ == self@,
    {
        ServerConnectEvent {
            uuid: self.uuid.clone(),
            username: self.username.clone(),
            current_server: copy_opt(&self.current_server),
            target_server: self.target_server.clone(),
            cancelled: self.cancelled,
            cancel_reason: copy_opt(&self.cancel_reason),
        }
    }
}

/// A player has been connected to a server.
#[derive(Debug, PartialEq, Eq)]
pub struct ServerConnectedEvent<S = String> {
    pub uuid: S,
    pub username: S,
    pub server_name: S,
}

pub type ServerConnectedModel = ServerConnectedEvent<Seq<char>>;

impl View for ServerConnectedEvent {
    type V = ServerConnectedModel;

    open spec fn view(&self) -> ServerConnectedModel {
        ServerConnectedEvent {
            uuid: self.uuid@,
            username: self.username@,
            server_name: self.server_name@,
        }
    }
}

impl Clone for ServerConnectedEvent {
    fn clone(&self) -> (r: Self)
        ensures
            r@ == self@,
    {
        ServerConnectedEvent {
            uuid: self.uuid.clone(),
            username: self.username.clone(),
            server_name: self.server_name.clone(),
        }
    }
}

/// A player has left the proxy.
#[derive(Debug, PartialEq, Eq)]
pub struct PlayerDisconnectEvent<S = String> {
    pub uuid: S,
    pub username: S,
    pub last_server: Option<S>,
}

pub type PlayerDisconnectModel = PlayerDisconnectEvent<Seq<char>>;

impl View for PlayerDisconnectEvent {
    type V = PlayerDisconnectModel;

    open spec fn view(&self) -> PlayerDisconnectModel {
        PlayerDisconnectEvent {
            uuid: self.uuid@,
            username: self.username@,
            last_server: opt_text(self.last_server),
        }
    }
}

impl Clone for PlayerDisconnectEvent {
    fn clone(&self) -> (r: Self)
        ensures
            r@ == self@,
    {
        PlayerDisconnectEvent {
            uuid: self.uuid.clone(),
            username: self.username.clone(),
            last_server: copy_opt(&self.last_server),
        }
    }
}

/// A player has said something.
#[derive(Debug, PartialEq, Eq)]
pub struct PlayerChatEvent<S = String> {
    pub uuid: S,
    pub username: S,
    pub message: S,
    pub cancelled: bool,
}

pub type PlayerChatModel = PlayerChatEvent<Seq<char>>;

impl View for PlayerChatEvent {
    type V = PlayerChatModel;

    open spec fn view(&self) -> PlayerChatModel {
        PlayerChatEvent {
            uuid: self.uuid@,
            username: self.username@,
            message: self.message@,
            cancelled: self.cancelled,
        }
    }
}

impl Clone for PlayerChatEvent {
    fn clone(&self) -> (r: Self)
        ensures
            r@ == self@,
    {
        PlayerChatEvent {
            uuid: self.uuid.clone(),
            username: self.username.clone(),
            message: self.message.clone(),
            cancelled: self.cancelled,
        }
    }
}

/// A player has entered a command.
#[derive(Debug, PartialEq, Eq)]
pub struct PlayerCommandEvent<S = String> {
    pub uuid: S,
    pub username: S,
    pub command: S,
    pub cancelled: bool,
}

pub type PlayerCommandModel = PlayerCommandEvent<Seq<char>>;

impl View for PlayerCommandEvent {
    type V = PlayerCommandModel;

    open spec fn view(&self) -> PlayerCommandModel {
        PlayerCommandEvent {
            uuid: self.uuid@,
            username: self.username@,
            command: self.command@,
            cancelled: self.cancelled,
        }
    }
}

impl Clone for PlayerCommandEvent {
    fn clone(&self) -> (r: Self)
        ensures
            r@ == self@,
    {
        PlayerCommandEvent {
            uuid: self.uuid.clone(),
            username: self.username.clone(),
            command: self.command.clone(),
            cancelled: self.cancelled,
        }
    }
}

/// A message on a plugin channel.
#[derive(Debug, PartialEq, Eq)]
pub struct PluginMessageEvent<S = String, B = Vec<u8>> {
    pub channel: S,
    pub data: B,
    pub player_uuid: Option<S>,
    pub server_name: Option<S>,
    pub cancelled: bool,
}

pub type PluginMessageModel = PluginMessageEvent<Seq<char>, Seq<u8>>;

impl View for PluginMessageEvent {
    type V = PluginMessageModel;

    open spec fn view(&self) -> PluginMessageModel {
        PluginMessageEvent {
            channel: self.channel@,
            data: self.data@,
            player_uuid: opt_text(self.player_uuid),
            server_name: opt_text(self.server_name),
            cancelled: self.cancelled,
        }
    }
}

impl Clone for PluginMessageEvent {
    fn clone(&self) -> (r: Self)
        ensures
            r@ == self@,
    {
        PluginMessageEvent {
            channel: self.channel.clone(),
            data: copy_bytes(&self.data),
            player_uuid: copy_opt(&self.player_uuid),
            server_name: copy_opt(&self.server_name),
            cancelled: self.cancelled,
        }
    }
}

} // verus!
