//! The tunnel between a client and a backend: what becomes of each packet and of each action.
//!
//! A packet goes through stages in order. Where a stage needs work that only others can do (a
//! packet body to be read, plugins to be asked), the step says so, and the packet goes on with
//! the answer.
use vstd::prelude::*;
use vstd::string::*;

use crate::backend::error::{TunnelExit, TunnelExitModel};
use crate::backend::suggestions::{
    clean_command, decide_suggestion, merge_suggestions, merged, pending_reply, reply_from_pending,
    requested_command, suggest_decision, DecisionModel, PendingModel, PendingSuggestions,
    ReplyModel, SuggestDecision, SuggestionReply,
};
use crate::codec::{frame, framed};
use crate::command::dispatcher::{
    knows, names_and_descriptions, permitted_entries, text_pairs, CommandDispatcher, Entries,
};
use crate::command::source::{ProxyCommandSource, SourceModel};
use crate::crypto::{uuid_hyphenated, uuid_text};
use crate::plugin::api::{
    PlayerChatEvent, PlayerChatModel, PlayerCommandEvent, PlayerCommandModel, PluginMessageEvent,
    PluginMessageModel,
};
use crate::security::rate_limiter::{nanos_since, next_count, next_window};
use crate::security::PacketRateLimiter;
use crate::session::{PlayerAction, PlayerActionModel};
use crate::text::{first_word, first_word_of, opt_text, owned};

verus! {

broadcast use vstd::seq::group_seq_axioms;

/// The numbers, in the client's version, of the packets that the tunnel looks at.
#[derive(Debug, Clone, Copy, PartialEq, Eq, Structural)]
pub struct TunnelIds {
    pub chat_command: i32,
    pub chat_message: i32,
    pub custom_payload: i32,
    pub command_suggestion: i32,
    pub suggestions_reply: i32,
    pub commands: i32,
    pub play_disconnect: i32,
}

/// What is done about a client's packet.
#[derive(Debug, PartialEq, Eq)]
pub enum ClientStep<S = String, B = Vec<u8>> {
    /// Leave the tunnel
    Exit(TunnelExit<S>),
    /// Read the body as a command; go on with `on_command`
    ReadCommand,
    /// Read the body as a chat message; go on with `on_chat`
    ReadChat,
    /// Read the body as a plugin message; go on with `on_custom`
    ReadCustom,
    /// Read the body as a request for suggestions; go on with `on_suggestion`
    ReadSuggestion,
    /// Carry out a command of the proxy; the packet goes no further
    RunCommand(S),
    /// Answer with suggestions for a command of the proxy; the packet goes no further
    Complete { command: S, offset: usize },
    /// Send the packet to the backend
    Forward(B),
    /// The packet goes no further
    Drop,
}

pub type ClientStepModel = ClientStep<Seq<char>, Seq<u8>>;

impl View for ClientStep {
    type V = ClientStepModel;

    open spec fn view(&self) -> ClientStepModel {
        match self {
            ClientStep::Exit(x) => ClientStep::Exit(x@),
            ClientStep::ReadCommand => ClientStep::ReadCommand,
            ClientStep::ReadChat => ClientStep::ReadChat,
            ClientStep::ReadCustom => ClientStep::ReadCustom,
            ClientStep::ReadSuggestion => ClientStep::ReadSuggestion,
            ClientStep::RunCommand(s) => ClientStep::RunCommand(s@),
            ClientStep::Complete { command, offset } => ClientStep::Complete {
                command: command@,
                offset: *offset,
            },
            ClientStep::Forward(b) => ClientStep::Forward(b@),
            ClientStep::Drop => ClientStep::Drop,
        }
    }
}

/// The stages of a client's packet.
#[derive(Debug, Clone, Copy, PartialEq, Eq, Structural)]
pub enum ClientStage {
    Command,
    Chat,
    Custom,
    Suggestion,
}

impl ClientStage {
    pub open spec fn rank(self) -> int {
        match self {
            ClientStage::Command => 0,
            ClientStage::Chat => 1,
            ClientStage::Custom => 2,
            ClientStage::Suggestion => 3,
        }
    }
}

/// The first step for a packet at or after a stage: the stages that its number concerns, then
/// the way to the backend.
pub open spec fn client_from(ids: TunnelIds, from: ClientStage, id: i32, body: Seq<u8>) -> ClientStepModel {
    if from.rank() <= 0 && id == ids.chat_command {
        ClientStep::ReadCommand
    } else if from.rank() <= 1 && id == ids.chat_message {
        ClientStep::ReadChat
    } else if from.rank() <= 2 && id == ids.custom_payload {
        ClientStep::ReadCustom
    } else if id == ids.command_suggestion {
        ClientStep::ReadSuggestion
    } else {
        ClientStep::Forward(framed(id, body))
    }
}

fn client_step_from(ids: TunnelIds, from: ClientStage, id: i32, body: &[u8]) -> (r: ClientStep)
    ensures
        r@ == client_from(ids, from, id, body@),
{
    let stage: u8 = match from {
        ClientStage::Command => 0,
        ClientStage::Chat => 1,
        ClientStage::Custom => 2,
        ClientStage::Suggestion => 3,
    };
    if stage == 0 && id == ids.chat_command {
        ClientStep::ReadCommand
    } else if stage <= 1 && id == ids.chat_message {
        ClientStep::ReadChat
    } else if stage <= 2 && id == ids.custom_payload {
        ClientStep::ReadCustom
    } else if id == ids.command_suggestion {
        ClientStep::ReadSuggestion
    } else {
        ClientStep::Forward(frame(id, body))
    }
}

/// What becomes of a command that plugins have seen, or that could not be read.
pub open spec fn after_command(
    ids: TunnelIds,
    id: i32,
    body: Seq<u8>,
    seen: Option<PlayerCommandModel>,
    known: bool,
) -> ClientStepModel {
    match seen {
        Some(e) => if e.cancelled {
            ClientStep::Drop
        } else if known {
            ClientStep::RunCommand(e.command)
        } else {
            client_from(ids, ClientStage::Chat, id, body)
        },
        None => client_from(ids, ClientStage::Chat, id, body),
    }
}

/// What becomes of a packet that plugins can hold back.
pub open spec fn unless_cancelled(
    ids: TunnelIds,
    next: ClientStage,
    id: i32,
    body: Seq<u8>,
    cancelled: bool,
) -> ClientStepModel {
    if cancelled {
        ClientStep::Drop
    } else {
        client_from(ids, next, id, body)
    }
}

/// What becomes of a request for suggestions, and what is pending after it.
pub open spec fn after_suggestion(
    id: i32,
    body: Seq<u8>,
    decision: DecisionModel,
) -> ClientStepModel {
    match decision {
        DecisionModel::Complete { command, offset } => ClientStep::Complete {
            command,
            offset: offset as usize,
        },
        _ => ClientStep::Forward(framed(id, body)),
    }
}

/// What is done about a backend's packet.
#[derive(Debug, PartialEq, Eq)]
pub enum BackendStep<B = Vec<u8>> {
    /// Read the body as a disconnect; go on with `on_disconnect`
    ReadDisconnect,
    /// Read the body as suggestions; go on with `on_suggestions`
    ReadSuggestions,
    /// Read the body as the tree of commands; go on with `on_commands`
    ReadCommands,
    /// Send the packet to the client
    Forward(B),
}

pub type BackendStepModel = BackendStep<Seq<u8>>;

impl View for BackendStep {
    type V = BackendStepModel;

    open spec fn view(&self) -> BackendStepModel {
        match self {
            BackendStep::ReadDisconnect => BackendStep::ReadDisconnect,
            BackendStep::ReadSuggestions => BackendStep::ReadSuggestions,
            BackendStep::ReadCommands => BackendStep::ReadCommands,
            BackendStep::Forward(b) => BackendStep::Forward(b@),
        }
    }
}

pub open spec fn backend_from(ids: TunnelIds, id: i32, body: Seq<u8>) -> BackendStepModel {
    if id == ids.play_disconnect {
        BackendStep::ReadDisconnect
    } else if id == ids.suggestions_reply {
        BackendStep::ReadSuggestions
    } else {
        backend_after_suggestions(ids, id, body)
    }
}

/// What is left for a packet that is not answered with merged suggestions.
pub open spec fn backend_after_suggestions(ids: TunnelIds, id: i32, body: Seq<u8>) -> BackendStepModel {
    if id == ids.commands {
        BackendStep::ReadCommands
    } else {
        BackendStep::Forward(framed(id, body))
    }
}

/// The text of some bytes, with a mark for what is not UTF-8.
pub uninterp spec fn lossy_text(bytes: Seq<u8>) -> Seq<char>;

/// `String::from_utf8_lossy`: depends on the bytes alone; well-formed UTF-8 is kept.
#[verifier::external_body]
fn text_lossy(bytes: &[u8]) -> (r: String)
    ensures
        r@ == lossy_text(bytes@),
        vstd::utf8::valid_utf8(bytes@) ==> r@ == vstd::utf8::decode_utf8(bytes@),
{
    String::from_utf8_lossy(bytes).to_string()
}

/// Why a backend has disconnected a player: the component if it could be read, else the packet
/// as text, if there is any.
pub open spec fn disconnect_reason(component: Option<Seq<char>>, raw: Seq<char>) -> Option<
    Seq<char>,
> {
    match component {
        Some(t) => Some(t),
        None => if raw.len() == 0 {
            None
        } else {
            Some(raw)
        },
    }
}

/// The reason, once the packet has been turned into text.
pub fn reason_from(component: Option<String>, raw: String) -> (r: Option<String>)
    ensures
        opt_text(r) == disconnect_reason(opt_text(component), raw@),
{
    match component {
        Some(t) => Some(t),
        None => {
            if raw.as_str().unicode_len() == 0 {
                None
            } else {
                Some(raw)
            }
        },
    }
}

/// What an action does to the tunnel.
#[derive(Debug, PartialEq, Eq)]
pub enum ActionStep<S = String, B = Vec<u8>> {
    /// Leave the tunnel
    Exit(TunnelExit<S>),
    /// Show a line of chat
    Chat(S),
    /// Disconnect the client, then leave the tunnel
    DisconnectThenExit { reason: S, exit: TunnelExit<S> },
    /// Send a plugin message to the client
    Custom { channel: S, data: B },
}

pub type ActionStepModel = ActionStep<Seq<char>, Seq<u8>>;

impl View for ActionStep {
    type V = ActionStepModel;

    open spec fn view(&self) -> ActionStepModel {
        match self {
            ActionStep::Exit(x) => ActionStep::Exit(x@),
            ActionStep::Chat(t) => ActionStep::Chat(t@),
            ActionStep::DisconnectThenExit { reason, exit } => ActionStep::DisconnectThenExit {
                reason: reason@,
                exit: exit@,
            },
            ActionStep::Custom { channel, data } => ActionStep::Custom {
                channel: channel@,
                data: data@,
            },
        }
    }
}

pub open spec fn action_step(action: PlayerActionModel) -> ActionStepModel {
    match action {
        PlayerAction::Connect { server_name } => ActionStep::Exit(
            TunnelExit::Connect { server_name },
        ),
        PlayerAction::Transfer { host, port } => ActionStep::Exit(
            TunnelExit::Transfer { host, port },
        ),
        PlayerAction::Message(t) => ActionStep::Chat(t),
        PlayerAction::Disconnect(reason) => ActionStep::DisconnectThenExit {
            reason,
            exit: TunnelExit::BackendDisconnected { reason: Some(reason) },
        },
        PlayerAction::PluginMessage { channel, data } => ActionStep::Custom { channel, data },
    }
}

/// How one of the four streams of a tunnel can stop.
#[derive(Debug, PartialEq, Eq)]
pub enum StreamEnd {
    /// Nothing more comes from the client
    ClientRead,
    /// The client cannot be written to, or nothing is left to write
    ClientWrite,
    /// Nothing more comes from the backend, and why
    BackendRead(String),
    /// The backend cannot be written to
    BackendWrite,
    /// No more actions can come
    Actions,
}

/// How the tunnel ends when a stream stops.
pub fn on_stream_end(end: StreamEnd) -> (r: TunnelExit)
    ensures
        r@ == (match end {
            StreamEnd::ClientRead => TunnelExitModel::ClientDisconnected,
            StreamEnd::ClientWrite => TunnelExitModel::ClientDisconnected,
            StreamEnd::Actions => TunnelExitModel::ClientDisconnected,
            StreamEnd::BackendRead(e) => TunnelExitModel::BackendDisconnected { reason: Some(e@) },
            StreamEnd::BackendWrite => TunnelExitModel::BackendDisconnected { reason: None },
        }),
{
    match end {
        StreamEnd::ClientRead | StreamEnd::ClientWrite | StreamEnd::Actions => {
            TunnelExit::ClientDisconnected
        },
        StreamEnd::BackendRead(e) => TunnelExit::BackendDisconnected { reason: Some(e) },
        StreamEnd::BackendWrite => TunnelExit::BackendDisconnected { reason: None },
    }
}

/// How long the proxy waits for a backend's suggestions before it sends its own, in
/// milliseconds.
pub const SUGGESTION_WAIT_MILLIS: u64 = 200;

/// One tunnel.
pub struct Tunnel {
    pub ids: TunnelIds,
    pub username: String,
    pub uuid: u128,
    pub server: String,
    /// Suggestions that wait for the backend
    pub pending: PendingSuggestions,
}

/// What is kept once a request has been answered, by the backend or because the wait is over.
pub open spec fn answered(pending: Map<i32, PendingModel>, number: Option<i32>) -> Map<
    i32,
    PendingModel,
> {
    match number {
        Some(n) => pending.remove(n),
        None => pending,
    }
}

/// What is sent when the wait for a backend's suggestions is over.
pub open spec fn timer_answer(pending: Map<i32, PendingModel>, number: i32) -> Option<ReplyModel> {
    if pending.dom().contains(number) {
        Some(pending_reply(number, pending[number]))
    } else {
        None
    }
}

/// What is sent for a backend's suggestions in place of them.
pub open spec fn backend_answer(
    pending: Map<i32, PendingModel>,
    reply: Option<ReplyModel>,
) -> Option<ReplyModel> {
    match reply {
        Some(s) => if pending.dom().contains(s.id) {
            Some(ReplyModel { matches: merged(s.matches, pending[s.id].proxy_matches), ..s })
        } else {
            None
        },
        None => None,
    }
}

/// What is decided about a request for suggestions, by the commands that the proxy knows and those
/// among them that the player may use.
pub open spec fn decision_for(entries: Entries, src: SourceModel, raw: Seq<char>) -> DecisionModel {
    suggest_decision(
        raw,
        knows(entries, first_word_of(clean_command(raw))),
        names_and_descriptions(permitted_entries(entries, src)),
    )
}

impl Tunnel {
    pub fn new(ids: TunnelIds, username: String, uuid: u128, server: String) -> (r: Self)
        ensures
            r.ids == ids,
            r.username == username,
            r.uuid == uuid,
            r.server == server,
            r.pending@ == Map::<i32, PendingModel>::empty(),
    {
        Tunnel { ids, username, uuid, server, pending: PendingSuggestions::new() }
    }

    /// A packet has come from the client. `within_limit` says whether the client keeps to its
    /// packet rate.
    pub fn on_client_packet(&self, within_limit: bool, id: i32, body: &[u8]) -> (r: ClientStep)
        ensures
            r@ == (if within_limit {
                client_from(self.ids, ClientStage::Command, id, body@)
            } else {
                ClientStep::Exit(TunnelExit::ClientDisconnected)
            }),
    {
        if !within_limit {
            return ClientStep::Exit(TunnelExit::ClientDisconnected);
        }
        client_step_from(self.ids, ClientStage::Command, id, body)
    }

    /// A packet has come from the client at the present time, and counts against its packet rate.
    pub fn on_limited_packet(&self, limiter: &mut PacketRateLimiter, id: i32, body: &[u8]) -> (r:
        ClientStep)
        requires
            old(limiter).count() < u32::MAX,
        ensures
            final(limiter).limit() == old(limiter).limit(),
            final(limiter).origin() == old(limiter).origin(),
            exists|now: u128|
                final(limiter).window() == #[trigger] next_window(old(limiter).window(), now)
                    && final(limiter).count() == next_count(
                    old(limiter).count() as int,
                    nanos_since(old(limiter).window(), now),
                ),
            r@ == (if final(limiter).count() <= old(limiter).limit() {
                client_from(self.ids, ClientStage::Command, id, body@)
            } else {
                ClientStep::Exit(TunnelExit::ClientDisconnected)
            }),
    {
        let within_limit = limiter.record_packet();
        self.on_client_packet(within_limit, id, body)
    }

    /// The event by which plugins are asked about a command.
    pub fn command_event(&self, command: String) -> (r: PlayerCommandEvent)
        ensures
            r@ == (PlayerCommandModel {
                uuid: uuid_text(self.uuid),
                username: self.username@,
                command: command@,
                cancelled: false,
            }),
    {
        PlayerCommandEvent {
            uuid: uuid_hyphenated(self.uuid),
            username: self.username.clone(),
            command,
            cancelled: false,
        }
    }

    /// The word by which a command is known.
    pub fn command_word(&self, event: &PlayerCommandEvent) -> (r: String)
        ensures
            r@ == first_word_of(event@.command),
    {
        first_word(event.command.as_str())
    }

    /// Plugins have seen a command, or it could not be read. `known` says whether the proxy
    /// knows the word of the command.
    pub fn on_command(&self, id: i32, body: &[u8], seen: &Option<PlayerCommandEvent>, known: bool) -> (r:
        ClientStep)
        ensures
            r@ == after_command(
                self.ids,
                id,
                body@,
                crate::table::opt_view(*seen),
                known,
            ),
    {
        match seen {
            Some(e) => {
                if e.cancelled {
                    ClientStep::Drop
                } else if known {
                    ClientStep::RunCommand(e.command.clone())
                } else {
                    client_step_from(self.ids, ClientStage::Chat, id, body)
                }
            },
            None => client_step_from(self.ids, ClientStage::Chat, id, body),
        }
    }

    /// Plugins have seen a command, or it could not be read. The proxy carries it out if the
    /// dispatcher knows its first word.
    pub fn decide_command(
        &self,
        dispatcher: &CommandDispatcher,
        id: i32,
        body: &[u8],
        seen: &Option<PlayerCommandEvent>,
    ) -> (r: ClientStep)
        ensures
            r@ == after_command(
                self.ids,
                id,
                body@,
                crate::table::opt_view(*seen),
                seen matches Some(e) && knows(dispatcher@, first_word_of(e@.command)),
            ),
    {
        let known = match seen {
            Some(e) => dispatcher.has_command(self.command_word(e).as_str()),
            None => false,
        };
        self.on_command(id, body, seen, known)
    }

    /// The event by which plugins are asked about a chat message.
    pub fn chat_event(&self, message: String) -> (r: PlayerChatEvent)
        ensures
            r@ == (PlayerChatModel {
                uuid: uuid_text(self.uuid),
                username: self.username@,
                message: message@,
                cancelled: false,
            }),
    {
        PlayerChatEvent {
            uuid: uuid_hyphenated(self.uuid),
            username: self.username.clone(),
            message,
            cancelled: false,
        }
    }

    /// Plugins have seen a chat message, or it could not be read. What a plugin has made of the
    /// words stays with the plugins: the packet is sent as it came.
    pub fn on_chat(&self, id: i32, body: &[u8], seen: &Option<PlayerChatEvent>) -> (r: ClientStep)
        ensures
            r@ == unless_cancelled(
                self.ids,
                ClientStage::Custom,
                id,
                body@,
                seen matches Some(e) && e.cancelled,
            ),
    {
        match seen {
            Some(e) => {
                if e.cancelled {
                    return ClientStep::Drop;
                }
            },
            None => {},
        }
        client_step_from(self.ids, ClientStage::Custom, id, body)
    }

    /// The event by which plugins are asked about a plugin message.
    pub fn custom_event(&self, channel: String, data: Vec<u8>) -> (r: PluginMessageEvent)
        ensures
            r@ == (PluginMessageModel {
                channel: channel@,
                data: data@,
                player_uuid: Some(uuid_text(self.uuid)),
                server_name: Some(self.server@),
                cancelled: false,
            }),
    {
        PluginMessageEvent {
            channel,
            data,
            player_uuid: Some(uuid_hyphenated(self.uuid)),
            server_name: Some(self.server.clone()),
            cancelled: false,
        }
    }

    /// Plugins have seen a plugin message, or it could not be read.
    pub fn on_custom(&self, id: i32, body: &[u8], seen: &Option<PluginMessageEvent>) -> (r:
        ClientStep)
        ensures
            r@ == unless_cancelled(
                self.ids,
                ClientStage::Suggestion,
                id,
                body@,
                seen matches Some(e) && e.cancelled,
            ),
    {
        match seen {
            Some(e) => {
                if e.cancelled {
                    return ClientStep::Drop;
                }
            },
            None => {},
        }
        client_step_from(self.ids, ClientStage::Suggestion, id, body)
    }

    /// A request for suggestions has been read as number and text, or could not be read. Where
    /// the proxy's own suggestions are kept for the backend's, the second part of the result
    /// names the request: after `SUGGESTION_WAIT_MILLIS` it is time for `on_timer`.
    pub fn on_suggestion(
        &mut self,
        id: i32,
        body: &[u8],
        request: &Option<(i32, String)>,
        known: bool,
        permitted: &Vec<(String, String)>,
    ) -> (r: (ClientStep, Option<i32>))
        ensures
            final(self).ids == old(self).ids,
            final(self).username == old(self).username,
            final(self).uuid == old(self).uuid,
            final(self).server == old(self).server,
            match request {
                None => r.0@ == ClientStepModel::Forward(framed(id, body@)) && r.1 is None
                    && final(self).pending@ == old(self).pending@,
                Some((number, raw)) => {
                    let decision = suggest_decision(raw@, known, text_pairs(permitted@));
                    &&& r.0@ == after_suggestion(id, body@, decision)
                    &&& match decision {
                        DecisionModel::Remember(p) => r.1 == Some(*number) && final(self).pending@
                            == old(self).pending@.insert(*number, p),
                        _ => r.1 is None && final(self).pending@ == old(self).pending@,
                    }
                },
            },
    {
        match request {
            None => (ClientStep::Forward(frame(id, body)), None),
            Some((number, raw)) => {
                match decide_suggestion(raw.as_str(), known, permitted) {
                    SuggestDecision::Complete { command, offset } => (
                        ClientStep::Complete { command, offset },
                        None,
                    ),
                    SuggestDecision::Remember(p) => {
                        self.pending.insert(*number, p);
                        (ClientStep::Forward(frame(id, body)), Some(*number))
                    },
                    SuggestDecision::Pass => (ClientStep::Forward(frame(id, body)), None),
                }
            },
        }
    }

    /// A request for suggestions has been read as number and text, or could not be read. The
    /// dispatcher knows the proxy's commands, and which of them the player may use. The second
    /// part of the result is that of `on_suggestion`.
    pub fn decide_request(
        &mut self,
        dispatcher: &CommandDispatcher,
        source: &ProxyCommandSource,
        id: i32,
        body: &[u8],
        request: &Option<(i32, String)>,
    ) -> (r: (ClientStep, Option<i32>))
        ensures
            final(self).ids == old(self).ids,
            final(self).username == old(self).username,
            final(self).uuid == old(self).uuid,
            final(self).server == old(self).server,
            match request {
                None => r.0@ == ClientStepModel::Forward(framed(id, body@)) && r.1 is None
                    && final(self).pending@ == old(self).pending@,
                Some((number, raw)) => {
                    let decision = decision_for(dispatcher@, source@, raw@);
                    &&& r.0@ == after_suggestion(id, body@, decision)
                    &&& match decision {
                        DecisionModel::Remember(p) => r.1 == Some(*number) && final(self).pending@
                            == old(self).pending@.insert(*number, p),
                        _ => r.1 is None && final(self).pending@ == old(self).pending@,
                    }
                },
            },
    {
        let known = match request {
            Some((_, raw)) => dispatcher.has_command(requested_command(raw.as_str()).as_str()),
            None => false,
        };
        let permitted = dispatcher.get_all_permitted_commands(source);
        self.on_suggestion(id, body, request, known, &permitted)
    }

    /// The wait for a backend's suggestions is over: if they have not come, the proxy's own are
    /// sent.
    pub fn on_timer(&mut self, number: i32) -> (r: Option<SuggestionReply>)
        ensures
            final(self).ids == old(self).ids,
            final(self).username == old(self).username,
            final(self).uuid == old(self).uuid,
            final(self).server == old(self).server,
            final(self).pending@ == answered(old(self).pending@, Some(number)),
            crate::table::opt_view(r) == timer_answer(old(self).pending@, number),
    {
        match self.pending.take(number) {
            Some(p) => Some(reply_from_pending(number, &p)),
            None => None,
        }
    }

    /// A packet has come from the backend.
    pub fn on_backend_packet(&self, id: i32, body: &[u8]) -> (r: BackendStep)
        ensures
            r@ == backend_from(self.ids, id, body@),
    {
        if id == self.ids.play_disconnect {
            BackendStep::ReadDisconnect
        } else if id == self.ids.suggestions_reply {
            BackendStep::ReadSuggestions
        } else {
            self.backend_rest(id, body)
        }
    }

    /// The step for a packet that is not answered with merged suggestions.
    pub fn backend_rest(&self, id: i32, body: &[u8]) -> (r: BackendStep)
        ensures
            r@ == backend_after_suggestions(self.ids, id, body@),
    {
        if id == self.ids.commands {
            BackendStep::ReadCommands
        } else {
            BackendStep::Forward(frame(id, body))
        }
    }

    /// The backend has disconnected the player. `component` is the reason as text, where it
    /// could be read.
    pub fn on_disconnect(&self, component: Option<String>, body: &[u8]) -> (r: TunnelExit)
        ensures
            r@ == (TunnelExitModel::BackendDisconnected {
                reason: disconnect_reason(opt_text(component), lossy_text(body@)),
            }),
    {
        TunnelExit::BackendDisconnected { reason: reason_from(component, text_lossy(body)) }
    }

    /// The backend's suggestions have been read, or could not be read. If the proxy has some of
    /// its own for the same request, the two are merged for the client; otherwise the packet
    /// goes on with `backend_rest`.
    pub fn on_suggestions(&mut self, reply: Option<SuggestionReply>) -> (r: Option<SuggestionReply>)
        ensures
            final(self).ids == old(self).ids,
            final(self).username == old(self).username,
            final(self).uuid == old(self).uuid,
            final(self).server == old(self).server,
            final(self).pending@ == answered(
                old(self).pending@,
                match reply {
                    Some(s) => Some(s.id),
                    None => None,
                },
            ),
            crate::table::opt_view(r) == backend_answer(
                old(self).pending@,
                crate::table::opt_view(reply),
            ),
    {
        match reply {
            None => None,
            Some(s) => match self.pending.take(s.id) {
                Some(p) => Some(merge_suggestions(s, &p.proxy_matches)),
                None => None,
            },
        }
    }

    /// The tree of commands goes to the client: with the proxy's commands in it, where these
    /// could be put in, and as it came otherwise.
    pub fn on_commands(&self, id: i32, body: &[u8], injected: &Option<Vec<u8>>) -> (r: Vec<u8>)
        ensures
            r@ == framed(
                id,
                match injected {
                    Some(tree) => tree@,
                    None => body@,
                },
            ),
    {
        match injected {
            Some(tree) => frame(id, tree.as_slice()),
            None => frame(id, body),
        }
    }

    /// An action has come for the player.
    pub fn on_action(&self, action: PlayerAction) -> (r: ActionStep)
        ensures
            r@ == action_step(action@),
    {
        match action {
            PlayerAction::Connect { server_name } => ActionStep::Exit(
                TunnelExit::Connect { server_name },
            ),
            PlayerAction::Transfer { host, port } => ActionStep::Exit(
                TunnelExit::Transfer { host, port },
            ),
            PlayerAction::Message(t) => ActionStep::Chat(t),
            PlayerAction::Disconnect(reason) => ActionStep::DisconnectThenExit {
                reason: reason.clone(),
                exit: TunnelExit::BackendDisconnected { reason: Some(reason) },
            },
            PlayerAction::PluginMessage { channel, data } => ActionStep::Custom { channel, data },
        }
    }
}

/// How a client is disconnected.
#[derive(Debug, PartialEq, Eq)]
pub enum DisconnectPacket<S = String> {
    /// In the configuration phase, with this JSON
    Configuration(S),
    /// In the game, with this text
    Play(S),
}

pub type DisconnectModel = DisconnectPacket<Seq<char>>;

impl View for DisconnectPacket {
    type V = DisconnectModel;

    open spec fn view(&self) -> DisconnectModel {
        match self {
            DisconnectPacket::Configuration(t) => DisconnectPacket::Configuration(t@),
            DisconnectPacket::Play(t) => DisconnectPacket::Play(t@),
        }
    }
}

/// A text with a backslash before each quotation mark.
pub open spec fn quotes_escaped(s: Seq<char>) -> Seq<char>
    decreases s.len(),
{
    if s.len() == 0 {
        s
    } else if s.last() == '"' {
        quotes_escaped(s.drop_last()) + seq!['\\', '"']
    } else {
        quotes_escaped(s.drop_last()).push(s.last())
    }
}

pub open spec fn disconnect_packet(in_configuration: bool, reason: Seq<char>) -> DisconnectModel {
    if in_configuration {
        DisconnectPacket::Configuration(
            "{\"text\":\"[Vine Proxy] "@ + quotes_escaped(reason) + "\",\"color\":\"red\"}"@,
        )
    } else {
        DisconnectPacket::Play(reason)
    }
}

pub fn escape_quotes(s: &str) -> (r: String)
    ensures
        r@ == quotes_escaped(s@),
{
    let v = crate::text::chars_of(s);
    let mut r = String::new();
    let mut i: usize = 0;
    assert(v@.take(0) == Seq::<char>::empty());
    assert(r@ == quotes_escaped(v@.take(0)));
    while i < v.len()
        invariant
            i <= v@.len(),
            r@ == quotes_escaped(v@.take(i as int)),
        decreases v.len() - i,
    {
        let ghost before = r@;
        assert(v@.take(i + 1).drop_last() == v@.take(i as int));
        assert(v@.take(i + 1).last() == v@[i as int]);
        if v[i] == '"' {
            r.push('\\');
            r.push('"');
            assert(r@ == before + seq!['\\', '"']);
        } else {
            r.push(v[i]);
        }
        i = i + 1;
    }
    assert(v@.take(v@.len() as int) == v@);
    r
}

/// The packet by which a client is disconnected.
pub fn disconnect_client(in_configuration: bool, reason: &str) -> (r: DisconnectPacket)
    ensures
        r@ == disconnect_packet(in_configuration, reason@),
{
    if in_configuration {
        DisconnectPacket::Configuration(
            crate::text::cat3(
                "{\"text\":\"[Vine Proxy] ",
                escape_quotes(reason).as_str(),
                "\",\"color\":\"red\"}",
            ),
        )
    } else {
        DisconnectPacket::Play(owned(reason))
    }
}

// ---------------------------------------------------------------------------
// Laws of the tunnel
// ---------------------------------------------------------------------------

/// A packet that no stage looks at is sent on exactly as it came.
pub proof fn law_other_packets_pass_unchanged(ids: TunnelIds, id: i32, body: Seq<u8>)
    ensures
        id != ids.chat_command && id != ids.chat_message && id != ids.custom_payload && id
            != ids.command_suggestion ==> client_from(ids, ClientStage::Command, id, body)
            == ClientStepModel::Forward(framed(id, body)),
        id != ids.play_disconnect && id != ids.suggestions_reply && id != ids.commands
            ==> backend_from(ids, id, body) == BackendStepModel::Forward(framed(id, body)),
{
}

/// What plugins cancel never reaches the backend.
pub proof fn law_cancelled_goes_nowhere(
    ids: TunnelIds,
    id: i32,
    body: Seq<u8>,
    e: PlayerCommandModel,
    known: bool,
    next: ClientStage,
)
    requires
        e.cancelled,
    ensures
        after_command(ids, id, body, Some(e), known) == ClientStepModel::Drop,
        unless_cancelled(ids, next, id, body, e.cancelled) == ClientStepModel::Drop,
{
}

/// A command that the proxy knows is carried out by the proxy and never reaches the backend.
pub proof fn law_own_commands_stay(
    ids: TunnelIds,
    id: i32,
    body: Seq<u8>,
    e: PlayerCommandModel,
)
    requires
        !e.cancelled,
    ensures
        after_command(ids, id, body, Some(e), true) == ClientStepModel::RunCommand(e.command),
{
}

/// Suggestions kept for a backend are sent once: by the backend's answer or by the timer,
/// whichever comes first; the other finds nothing, and neither finds anything twice. What is kept
/// for other requests is answered as before.
pub proof fn law_pending_is_sent_once(
    pending: Map<i32, PendingModel>,
    number: i32,
    reply: ReplyModel,
    again: ReplyModel,
    other: i32,
)
    requires
        reply.id == number,
        again.id == number,
        other != number,
    ensures
        pending.dom().contains(number) <==> timer_answer(pending, number) is Some,
        pending.dom().contains(number) <==> backend_answer(pending, Some(reply)) is Some,
        backend_answer(answered(pending, Some(number)), Some(again)) is None,
        timer_answer(answered(pending, Some(number)), number) is None,
        timer_answer(answered(pending, Some(number)), other) == timer_answer(pending, other),
{
}

pub proof fn lemma_plain_is_kept(s: Seq<char>)
    requires
        !s.contains('"'),
    ensures
        quotes_escaped(s) == s,
    decreases s.len(),
{
    if s.len() > 0 {
        let front = s.drop_last();
        assert(!front.contains('"')) by {
            if front.contains('"') {
                let i = choose|i: int| 0 <= i < front.len() && front[i] == '"';
                assert(s[i] == '"');
            }
        }
        lemma_plain_is_kept(front);
        assert(s.last() == s[s.len() - 1]);
        assert(front.push(s.last()) == s);
    }
}

/// Each packet of a client is looked at as what it is.
pub proof fn law_client_packets_by_kind(ids: TunnelIds, id: i32, body: Seq<u8>)
    ensures
        ({
            let s = client_from(ids, ClientStage::Command, id, body);
            &&& s is ReadCommand <==> id == ids.chat_command
            &&& s is ReadChat <==> id == ids.chat_message && id != ids.chat_command
            &&& s is ReadCustom <==> id == ids.custom_payload && id != ids.chat_command && id
                != ids.chat_message
            &&& s is ReadSuggestion <==> id == ids.command_suggestion && id != ids.chat_command
                && id != ids.chat_message && id != ids.custom_payload
            &&& s matches ClientStep::Forward(b) ==> b == crate::codec::varint(id) + body
            &&& s is ReadCommand || s is ReadChat || s is ReadCustom || s is ReadSuggestion
                || s is Forward
        }),
{
}

/// Each packet of a backend is looked at as what it is; all others reach the client as they came.
pub proof fn law_backend_packets_by_kind(ids: TunnelIds, id: i32, body: Seq<u8>)
    ensures
        ({
            let s = backend_from(ids, id, body);
            &&& s is ReadDisconnect <==> id == ids.play_disconnect
            &&& s is ReadSuggestions <==> id == ids.suggestions_reply && id != ids.play_disconnect
            &&& s is ReadCommands <==> id == ids.commands && id != ids.play_disconnect && id
                != ids.suggestions_reply
            &&& s matches BackendStep::Forward(b) ==> b == crate::codec::varint(id) + body
        }),
        id != ids.commands ==> backend_after_suggestions(ids, id, body) == BackendStepModel::Forward(
            crate::codec::varint(id) + body,
        ),
        id == ids.commands ==> backend_after_suggestions(ids, id, body) is ReadCommands,
{
}

/// A packet that nobody has cancelled, and that is no command of the proxy, reaches the backend as
/// it came, whatever plugins have made of its words.
pub proof fn law_uncancelled_reaches_the_backend(
    ids: TunnelIds,
    id: i32,
    body: Seq<u8>,
    seen: Option<PlayerCommandModel>,
)
    requires
        id != ids.command_suggestion,
        seen matches Some(e) ==> !e.cancelled,
    ensures
        id != ids.chat_message && id != ids.custom_payload ==> after_command(
            ids,
            id,
            body,
            seen,
            false,
        ) == ClientStepModel::Forward(crate::codec::varint(id) + body),
        id != ids.custom_payload ==> unless_cancelled(ids, ClientStage::Custom, id, body, false)
            == ClientStepModel::Forward(crate::codec::varint(id) + body),
        unless_cancelled(ids, ClientStage::Suggestion, id, body, false) == ClientStepModel::Forward(
            crate::codec::varint(id) + body,
        ),
{
}

/// What plugins are asked about names this player, their words or data, and, for a message, the
/// server that they are on; nothing is cancelled yet.
pub proof fn law_events_name_the_player(
    t: Tunnel,
    words: String,
    data: Vec<u8>,
    command: PlayerCommandEvent,
    chat: PlayerChatEvent,
    custom: PluginMessageEvent,
)
    requires
        call_ensures(Tunnel::command_event, (&t, words), command),
        call_ensures(Tunnel::chat_event, (&t, words), chat),
        call_ensures(Tunnel::custom_event, (&t, words, data), custom),
    ensures
        command@.username == t.username@ && command@.uuid == uuid_text(t.uuid) && command@.command
            == words@ && !command@.cancelled,
        chat@.username == t.username@ && chat@.uuid == uuid_text(t.uuid) && chat@.message == words@
            && !chat@.cancelled,
        custom@.channel == words@ && custom@.data == data@ && custom@.player_uuid == Some(
            uuid_text(t.uuid),
        ) && custom@.server_name == Some(t.server@) && !custom@.cancelled,
{
}

/// A client beyond its packet rate is disconnected; within it, its packets are looked at.
pub proof fn law_floods_end_the_tunnel(
    t: Tunnel,
    within: bool,
    id: i32,
    body: &[u8],
    r: ClientStep,
)
    requires
        call_ensures(Tunnel::on_client_packet, (&t, within, id, body), r),
    ensures
        !within ==> (r@ matches ClientStep::Exit(TunnelExit::ClientDisconnected)),
        within ==> r@ !is Exit && r@ !is Drop,
{
}

/// Chat and plugin messages that plugins have cancelled go no further.
pub proof fn law_cancelled_messages_are_dropped(
    t: Tunnel,
    id: i32,
    body: &[u8],
    chat: Option<PlayerChatEvent>,
    custom: Option<PluginMessageEvent>,
    r: ClientStep,
    q: ClientStep,
)
    requires
        call_ensures(Tunnel::on_chat, (&t, id, body, &chat), r),
        call_ensures(Tunnel::on_custom, (&t, id, body, &custom), q),
    ensures
        r@ is Drop <==> (chat matches Some(e) && e.cancelled),
        q@ is Drop <==> (custom matches Some(e) && e.cancelled),
{
}

/// A player's command is the proxy's to carry out exactly where its dispatcher knows the first
/// word and plugins have not cancelled it; it is carried out as plugins have left it.
pub proof fn law_known_commands_are_the_proxys(
    t: Tunnel,
    dispatcher: CommandDispatcher,
    id: i32,
    body: &[u8],
    e: PlayerCommandEvent,
    r: ClientStep,
)
    requires
        call_ensures(
            Tunnel::decide_command,
            (&t, &dispatcher, id, body, &Some::<PlayerCommandEvent>(e)),
            r,
        ),
    ensures
        r@ is RunCommand <==> !e.cancelled && knows(dispatcher@, first_word_of(e@.command)),
        r@ matches ClientStep::RunCommand(c) ==> c == e@.command,
        r@ is Drop <==> e.cancelled,
{
}

/// A backend's disconnect is told with the component that it sent, or with the packet as text;
/// without either there is no reason.
pub proof fn law_disconnects_are_quoted(component: Option<Seq<char>>, raw: Seq<char>)
    ensures
        component matches Some(t) ==> disconnect_reason(component, raw) == Some(t),
        component is None && raw.len() > 0 ==> disconnect_reason(component, raw) == Some(raw),
        component is None && raw.len() == 0 ==> disconnect_reason(component, raw) is None,
{
}

/// The tree of commands reaches the client: with the proxy's commands where they could be put in,
/// and otherwise as it came.
pub proof fn law_tree_reaches_the_client(
    t: Tunnel,
    id: i32,
    body: &[u8],
    tree: Vec<u8>,
    r: Vec<u8>,
    q: Vec<u8>,
)
    requires
        call_ensures(Tunnel::on_commands, (&t, id, body, &Some::<Vec<u8>>(tree)), r),
        call_ensures(Tunnel::on_commands, (&t, id, body, &None::<Vec<u8>>), q),
    ensures
        r@ == crate::codec::varint(id) + tree@,
        q@ == crate::codec::varint(id) + body@,
{
}

/// Each action for a player does what it says: a switch and a transfer leave the tunnel for where
/// they lead, messages reach the client, a disconnect gives its reason and then leaves.
pub proof fn law_actions_do_what_they_say(action: PlayerActionModel)
    ensures
        action matches PlayerAction::Connect { server_name } ==> (action_step(
            action,
        ) matches ActionStep::Exit(TunnelExit::Connect { server_name: s }) && s == server_name),
        action matches PlayerAction::Transfer { host, port } ==> (action_step(
            action,
        ) matches ActionStep::Exit(TunnelExit::Transfer { host: h, port: p }) && h == host && p
            == port),
        action matches PlayerAction::Message(t) ==> (action_step(action) matches ActionStep::Chat(u)
            && u == t),
        action matches PlayerAction::Disconnect(why) ==> (action_step(
            action,
        ) matches ActionStep::DisconnectThenExit {
            reason,
            exit: TunnelExit::BackendDisconnected { reason: Some(w) },
        } && reason == why && w == why),
        action matches PlayerAction::PluginMessage { channel, data } ==> (action_step(
            action,
        ) matches ActionStep::Custom { channel: c, data: d } && c == channel && d == data),
{
}

/// The tunnel ends for the client where the client's side stops, and for the backend, with the
/// reason there is, where the backend's does.
pub proof fn law_stream_ends_are_told_apart(end: StreamEnd, r: TunnelExit)
    requires
        call_ensures(on_stream_end, (end,), r),
    ensures
        r@ is ClientDisconnected <==> end is ClientRead || end is ClientWrite || end is Actions,
        r@ is BackendDisconnected <==> end is BackendRead || end is BackendWrite,
        end matches StreamEnd::BackendRead(e) ==> r@ == (TunnelExitModel::BackendDisconnected {
            reason: Some(e@),
        }),
        end is BackendWrite ==> r@ == (TunnelExitModel::BackendDisconnected { reason: None }),
{
}

/// Merged suggestions answer the backend's own packet: its number and its range stay, and its
/// suggestions are merged with those that were kept for that number. The timer's answer is what
/// was kept.
pub proof fn law_kept_suggestions_are_merged(
    pending: Map<i32, PendingModel>,
    reply: ReplyModel,
    number: i32,
)
    ensures
        backend_answer(pending, Some(reply)) is Some <==> pending.dom().contains(reply.id),
        backend_answer(pending, None) is None,
        backend_answer(pending, Some(reply)) matches Some(r) ==> r.id == reply.id && r.start
            == reply.start && r.length == reply.length && r.matches == merged(
            reply.matches,
            pending[reply.id].proxy_matches,
        ),
        timer_answer(pending, number) is Some <==> pending.dom().contains(number),
        timer_answer(pending, number) matches Some(r) ==> r == pending_reply(
            number,
            pending[number],
        ),
        answered(pending, Some(number)).dom() == pending.dom().remove(number),
        answered(pending, None) == pending,
{
}

/// Quotation marks are escaped, each by a backslash before it, and nothing else changes.
pub proof fn law_quotes_are_escaped(s: Seq<char>)
    ensures
        s.len() == 0 ==> quotes_escaped(s).len() == 0,
        s.len() > 0 && s.last() == '"' ==> quotes_escaped(s) == quotes_escaped(s.drop_last()).push(
            '\\',
        ).push('"'),
        s.len() > 0 && s.last() != '"' ==> quotes_escaped(s) == quotes_escaped(s.drop_last()).push(
            s.last(),
        ),
        !s.contains('"') ==> quotes_escaped(s) == s,
{
    if !s.contains('"') {
        lemma_plain_is_kept(s);
    }
    if s.len() > 0 {
        let e = quotes_escaped(s.drop_last());
        assert(e + seq!['\\', '"'] == e.push('\\').push('"'));
    }
}

/// A client is told why it is disconnected: as JSON while it is configured, as text in the game.
pub proof fn law_client_is_told_why(reason: Seq<char>)
    ensures
        disconnect_packet(false, reason) == DisconnectModel::Play(reason),
        disconnect_packet(true, reason) matches DisconnectPacket::Configuration(json)
            && crate::text::holds_part(json, quotes_escaped(reason)),
{
    crate::text::lemma_holds_part(
        "{\"text\":\"[Vine Proxy] "@,
        quotes_escaped(reason),
        "\",\"color\":\"red\"}"@,
    );
}

/// A player's request is the proxy's to complete exactly where a command that it knows is followed
/// by a space. Before the space, each kept suggestion is a command that the player may use and
/// whose name begins as typed, and every such command is kept.
pub proof fn law_requests_follow_the_dispatcher(
    entries: Entries,
    src: SourceModel,
    raw: Seq<char>,
    e: crate::command::dispatcher::EntryModel,
)
    ensures
        ({
            let d = decision_for(entries, src, raw);
            let clean = clean_command(raw);
            &&& d is Complete <==> clean.contains(' ') && knows(entries, first_word_of(clean))
            &&& d matches DecisionModel::Complete { command, .. } ==> command == clean
            &&& !clean.contains(' ') && permitted_entries(entries, src).contains(e)
                && crate::text::begins_with(e.name, crate::text::lower(clean)) ==> (
            d matches DecisionModel::Remember(p) && p.proxy_matches.contains(
                (e.name, e.description),
            ))
            &&& d matches DecisionModel::Remember(p) ==> forall|i: int|
                0 <= i < p.proxy_matches.len() ==> names_and_descriptions(
                    permitted_entries(entries, src),
                ).contains(#[trigger] p.proxy_matches[i]) && crate::text::begins_with(
                    p.proxy_matches[i].0,
                    crate::text::lower(clean),
                )
        }),
{
    let clean = clean_command(raw);
    let es = permitted_entries(entries, src);
    let permitted = names_and_descriptions(es);
    let x = (e.name, e.description);
    crate::backend::suggestions::law_matching_begins_as_typed(permitted, clean, x);
    if es.contains(e) {
        let j = choose|j: int| 0 <= j < es.len() && es[j] == e;
        assert(permitted[j] == x);
        assert(permitted.contains(x));
    }
    let m = crate::backend::suggestions::matching(permitted, clean);
    assert forall|i: int| 0 <= i < m.len() implies permitted.contains(#[trigger] m[i])
        && crate::text::begins_with(m[i].0, crate::text::lower(clean)) by {
        crate::backend::suggestions::law_matching_begins_as_typed(permitted, clean, m[i]);
        assert(m.contains(m[i]));
    }
}

/// A backend's packets, and the actions for a player, are taken for what they are.
pub proof fn law_tunnel_takes_things_for_what_they_are(
    t: Tunnel,
    id: i32,
    body: &[u8],
    component: Option<String>,
    action: PlayerAction,
    a: BackendStep,
    b: BackendStep,
    x: TunnelExit,
    s: ActionStep,
)
    requires
        call_ensures(Tunnel::on_backend_packet, (&t, id, body), a),
        call_ensures(Tunnel::backend_rest, (&t, id, body), b),
        call_ensures(Tunnel::on_disconnect, (&t, component, body), x),
        call_ensures(Tunnel::on_action, (&t, action), s),
    ensures
        a@ == backend_from(t.ids, id, body@),
        b@ == backend_after_suggestions(t.ids, id, body@),
        x@ matches TunnelExit::BackendDisconnected { reason } && reason == disconnect_reason(
            opt_text(component),
            lossy_text(body@),
        ),
        s@ == action_step(action@),
{
}

/// A client is disconnected with the reason that was given, as its phase needs it.
pub proof fn law_client_is_disconnected_with_the_reason(
    configuring: bool,
    reason: &str,
    r: DisconnectPacket,
)
    requires
        call_ensures(disconnect_client, (configuring, reason), r),
    ensures
        configuring <==> r@ is Configuration,
        !configuring ==> r@ == DisconnectModel::Play(reason@),
        configuring ==> (r@ matches DisconnectPacket::Configuration(json)
            && crate::text::holds_part(json, quotes_escaped(reason@))),
{
    law_client_is_told_why(reason@);
}

} // verus!
