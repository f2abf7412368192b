//! Events on their way through the plugins: what each plugin is told, and what its answer
//! changes.
use vstd::prelude::*;
use vstd::string::*;

use crate::plugin::api::{
    EventPriority, EventType, PlayerChatEvent, PlayerCommandEvent, PlayerDisconnectEvent,
    PlayerJoinEvent, PlayerLoginEvent, PlayerPreLoginEvent, PluginMessageEvent, ProxyPingEvent,
    ServerConnectEvent, ServerConnectedEvent,
};

verus! {

broadcast use vstd::seq::group_seq_axioms;

/// Any event.
#[derive(Debug, PartialEq, Eq)]
pub enum Event<S = String, B = Vec<u8>> {
    ProxyPing(ProxyPingEvent<S>),
    PlayerPreLogin(PlayerPreLoginEvent<S>),
    PlayerLogin(PlayerLoginEvent<S>),
    PlayerJoin(PlayerJoinEvent<S>),
    ServerConnect(ServerConnectEvent<S>),
    ServerConnected(ServerConnectedEvent<S>),
    PlayerDisconnect(PlayerDisconnectEvent<S>),
    PlayerChat(PlayerChatEvent<S>),
    PlayerCommand(PlayerCommandEvent<S>),
    PluginMessage(PluginMessageEvent<S, B>),
}

pub type EventModel = Event<Seq<char>, Seq<u8>>;

impl View for Event {
    type V = EventModel;

    open spec fn view(&self) -> EventModel {
        match self {
            Event::ProxyPing(e) => Event::ProxyPing(e@),
            Event::PlayerPreLogin(e) => Event::PlayerPreLogin(e@),
            Event::PlayerLogin(e) => Event::PlayerLogin(e@),
            Event::PlayerJoin(e) => Event::PlayerJoin(e@),
            Event::ServerConnect(e) => Event::ServerConnect(e@),
            Event::ServerConnected(e) => Event::ServerConnected(e@),
            Event::PlayerDisconnect(e) => Event::PlayerDisconnect(e@),
            Event::PlayerChat(e) => Event::PlayerChat(e@),
            Event::PlayerCommand(e) => Event::PlayerCommand(e@),
            Event::PluginMessage(e) => Event::PluginMessage(e@),
        }
    }
}

impl Clone for Event {
    fn clone(&self) -> (r: Self)
        ensures
            r@ == self@,
    {
        match self {
            Event::ProxyPing(e) => Event::ProxyPing(e.clone()),
            Event::PlayerPreLogin(e) => Event::PlayerPreLogin(e.clone()),
            Event::PlayerLogin(e) => Event::PlayerLogin(e.clone()),
            Event::PlayerJoin(e) => Event::PlayerJoin(e.clone()),
            Event::ServerConnect(e) => Event::ServerConnect(e.clone()),
            Event::ServerConnected(e) => Event::ServerConnected(e.clone()),
            Event::PlayerDisconnect(e) => Event::PlayerDisconnect(e.clone()),
            Event::PlayerChat(e) => Event::PlayerChat(e.clone()),
            Event::PlayerCommand(e) => Event::PlayerCommand(e.clone()),
            Event::PluginMessage(e) => Event::PluginMessage(e.clone()),
        }
    }
}

pub open spec fn kind_of(e: EventModel) -> EventType {
    match e {
        Event::ProxyPing(_) => EventType::ProxyPing,
        Event::PlayerPreLogin(_) => EventType::PlayerPreLogin,
        Event::PlayerLogin(_) => EventType::PlayerLogin,
        Event::PlayerJoin(_) => EventType::PlayerJoin,
        Event::ServerConnect(_) => EventType::ServerConnect,
        Event::ServerConnected(_) => EventType::ServerConnected,
        Event::PlayerDisconnect(_) => EventType::PlayerDisconnect,
        Event::PlayerChat(_) => EventType::PlayerChat,
        Event::PlayerCommand(_) => EventType::PlayerCommand,
        Event::PluginMessage(_) => EventType::PluginMessage,
    }
}

/// An event after a plugin's answer. An answer of another kind, or none, changes nothing; nor
/// does any answer to an event that only tells what has happened.
pub open spec fn merged(event: EventModel, reply: Option<EventModel>) -> EventModel {
    match (event, reply) {
        (Event::ProxyPing(e), Some(Event::ProxyPing(r))) => Event::ProxyPing(
            ProxyPingEvent {
                motd: r.motd,
                max_players: r.max_players,
                online_players: r.online_players,
                version_name: r.version_name,
                ..e
            },
        ),
        (Event::PlayerPreLogin(e), Some(Event::PlayerPreLogin(r))) => Event::PlayerPreLogin(
            PlayerPreLoginEvent { cancelled: r.cancelled, cancel_reason: r.cancel_reason, ..e },
        ),
        (Event::PlayerLogin(e), Some(Event::PlayerLogin(r))) => Event::PlayerLogin(
            PlayerLoginEvent { cancelled: r.cancelled, cancel_reason: r.cancel_reason, ..e },
        ),
        (Event::ServerConnect(e), Some(Event::ServerConnect(r))) => Event::ServerConnect(
            ServerConnectEvent {
                target_server: r.target_server,
                cancelled: r.cancelled,
                cancel_reason: r.cancel_reason,
                ..e
            },
        ),
        (Event::PlayerChat(e), Some(Event::PlayerChat(r))) => Event::PlayerChat(
            PlayerChatEvent { message: r.message, cancelled: r.cancelled, ..e },
        ),
        (Event::PlayerCommand(e), Some(Event::PlayerCommand(r))) => Event::PlayerCommand(
            PlayerCommandEvent { command: r.command, cancelled: r.cancelled, ..e },
        ),
        (Event::PluginMessage(e), Some(Event::PluginMessage(r))) => Event::PluginMessage(
            PluginMessageEvent { data: r.data, cancelled: r.cancelled, ..e },
        ),
        (other, _) => other,
    }
}

/// Whether an event has been cancelled; some cannot be.
pub open spec fn is_cancelled(e: EventModel) -> bool {
    match e {
        Event::PlayerPreLogin(e) => e.cancelled,
        Event::PlayerLogin(e) => e.cancelled,
        Event::ServerConnect(e) => e.cancelled,
        Event::PlayerChat(e) => e.cancelled,
        Event::PlayerCommand(e) => e.cancelled,
        Event::PluginMessage(e) => e.cancelled,
        _ => false,
    }
}

/// Whether an answer is the last: it cancels the event.
pub open spec fn is_last(event: EventModel, reply: Option<EventModel>) -> bool {
    reply matches Some(r) && kind_of(r) == kind_of(event) && is_cancelled(r)
}

/// An event after the answers of plugins, one after the other, up to one that cancels it.
pub open spec fn fired(event: EventModel, replies: Seq<Option<EventModel>>) -> EventModel
    decreases replies.len(),
{
    if replies.len() == 0 {
        event
    } else if is_last(event, replies[0]) {
        merged(event, replies[0])
    } else {
        fired(merged(event, replies[0]), replies.skip(1))
    }
}

/// The event, and who is told next, after the answer of one of `total` plugins: the one behind it,
/// or nobody after an answer that is the last.
pub open spec fn after_reply(
    event: EventModel,
    next: nat,
    total: nat,
    reply: Option<EventModel>,
) -> (EventModel, nat) {
    (
        merged(event, reply),
        if is_last(event, reply) {
            total
        } else {
            next + 1
        },
    )
}

/// A plugin that is to be told of an event.
#[derive(Debug, Clone, Copy, PartialEq, Eq, Structural)]
pub struct RegisteredEventHandler {
    pub handler_id: u32,
    pub priority: EventPriority,
    pub plugin: u64,
}

/// An event on its way through the plugins.
#[derive(Debug)]
pub struct Firing {
    pub event: Event,
    pub handlers: Vec<RegisteredEventHandler>,
    /// Which of the handlers comes next
    pub next: usize,
}

/// What an answer changes; whether it is the last.
fn merge(event: Event, reply: Option<Event>) -> (r: (Event, bool))
    ensures
        r.0@ == merged(
            event@,
            match reply {
                Some(e) => Some(e@),
                None => None,
            },
        ),
        r.1 == is_last(
            event@,
            match reply {
                Some(e) => Some(e@),
                None => None,
            },
        ),
{
    match (event, reply) {
        (Event::ProxyPing(e), Some(Event::ProxyPing(r))) => (
            Event::ProxyPing(
                ProxyPingEvent {
                    client_ip: e.client_ip,
                    protocol_version: e.protocol_version,
                    virtual_host: e.virtual_host,
                    motd: r.motd,
                    max_players: r.max_players,
                    online_players: r.online_players,
                    version_name: r.version_name,
                },
            ),
            false,
        ),
        (Event::PlayerPreLogin(e), Some(Event::PlayerPreLogin(r))) => (
            Event::PlayerPreLogin(
                PlayerPreLoginEvent {
                    client_ip: e.client_ip,
                    username: e.username,
                    protocol_version: e.protocol_version,
                    virtual_host: e.virtual_host,
                    cancelled: r.cancelled,
                    cancel_reason: r.cancel_reason,
                },
            ),
            r.cancelled,
        ),
        (Event::PlayerLogin(e), Some(Event::PlayerLogin(r))) => (
            Event::PlayerLogin(
                PlayerLoginEvent {
                    uuid: e.uuid,
                    username: e.username,
                    client_ip: e.client_ip,
                    cancelled: r.cancelled,
                    cancel_reason: r.cancel_reason,
                },
            ),
            r.cancelled,
        ),
        (Event::ServerConnect(e), Some(Event::ServerConnect(r))) => (
            Event::ServerConnect(
                ServerConnectEvent {
                    uuid: e.uuid,
                    username: e.username,
                    current_server: e.current_server,
                    target_server: r.target_server,
                    cancelled: r.cancelled,
                    cancel_reason: r.cancel_reason,
                },
            ),
            r.cancelled,
        ),
        (Event::PlayerChat(e), Some(Event::PlayerChat(r))) => (
            Event::PlayerChat(
                PlayerChatEvent {
                    uuid: e.uuid,
                    username: e.username,
                    message: r.message,
                    cancelled: r.cancelled,
                },
            ),
            r.cancelled,
        ),
        (Event::PlayerCommand(e), Some(Event::PlayerCommand(r))) => (
            Event::PlayerCommand(
                PlayerCommandEvent {
                    uuid: e.uuid,
                    username: e.username,
                    command: r.command,
                    cancelled: r.cancelled,
                },
            ),
            r.cancelled,
        ),
        (Event::PluginMessage(e), Some(Event::PluginMessage(r))) => (
            Event::PluginMessage(
                PluginMessageEvent {
                    channel: e.channel,
                    data: r.data,
                    player_uuid: e.player_uuid,
                    server_name: e.server_name,
                    cancelled: r.cancelled,
                },
            ),
            r.cancelled,
        ),
        (other, _) => (other, false),
    }
}

impl Firing {
    pub open spec fn well_formed(&self) -> bool {
        self.next <= self.handlers@.len()
    }

    /// Who is to be told next; no one once the event has been through.
    pub fn next_handler(&self) -> (r: Option<RegisteredEventHandler>)
        ensures
            r == (if self.next < self.handlers@.len() {
                Some(self.handlers@[self.next as int])
            } else {
                None
            }),
    {
        if self.next < self.handlers.len() {
            Some(self.handlers[self.next])
        } else {
            None
        }
    }

    /// The plugin has answered, or has failed to. After the last answer no one else is told.
    pub fn on_reply(&mut self, reply: Option<Event>)
        requires
            old(self).next < old(self).handlers@.len(),
        ensures
            (final(self).event@, final(self).next as nat) == after_reply(
                old(self).event@,
                old(self).next as nat,
                old(self).handlers@.len(),
                match reply {
                    Some(e) => Some(e@),
                    None => None,
                },
            ),
            final(self).handlers@ == old(self).handlers@,
            final(self).well_formed(),
    {
        let size: usize = self.handlers.len();
        let current = self.event.clone();
        let (event, last) = merge(current, reply);
        self.event = event;
        self.next = if last {
            size
        } else {
            self.next + 1
        };
    }
}

// ---------------------------------------------------------------------------
// Laws of events
// ---------------------------------------------------------------------------

/// Whom and what an event is about, which no plugin can change.
pub open spec fn same_subject(a: EventModel, b: EventModel) -> bool {
    match (a, b) {
        (Event::ProxyPing(x), Event::ProxyPing(y)) => x.client_ip == y.client_ip
            && x.protocol_version == y.protocol_version && x.virtual_host == y.virtual_host,
        (Event::PlayerPreLogin(x), Event::PlayerPreLogin(y)) => x.client_ip == y.client_ip
            && x.username == y.username && x.protocol_version == y.protocol_version
            && x.virtual_host == y.virtual_host,
        (Event::PlayerLogin(x), Event::PlayerLogin(y)) => x.uuid == y.uuid && x.username
            == y.username && x.client_ip == y.client_ip,
        (Event::ServerConnect(x), Event::ServerConnect(y)) => x.uuid == y.uuid && x.username
            == y.username && x.current_server == y.current_server,
        (Event::PlayerChat(x), Event::PlayerChat(y)) => x.uuid == y.uuid && x.username
            == y.username,
        (Event::PlayerCommand(x), Event::PlayerCommand(y)) => x.uuid == y.uuid && x.username
            == y.username,
        (Event::PluginMessage(x), Event::PluginMessage(y)) => x.channel == y.channel
            && x.player_uuid == y.player_uuid && x.server_name == y.server_name,
        (x, y) => x == y,
    }
}

/// Whatever plugins answer, an event stays about the same player, server or channel.
pub proof fn law_subject_is_kept(event: EventModel, replies: Seq<Option<EventModel>>)
    ensures
        same_subject(event, fired(event, replies)),
        kind_of(fired(event, replies)) == kind_of(event),
    decreases replies.len(),
{
    if replies.len() > 0 && !is_last(event, replies[0]) {
        law_subject_is_kept(merged(event, replies[0]), replies.skip(1));
    }
}

/// Plugins that do not answer, or answer about something else, change nothing.
pub proof fn law_no_answer_changes_nothing(event: EventModel, replies: Seq<Option<EventModel>>)
    requires
        forall|i: int|
            0 <= i < replies.len() ==> ((#[trigger] replies[i]) matches Some(r) ==> kind_of(r)
                != kind_of(event)),
    ensures
        fired(event, replies) == event,
    decreases replies.len(),
{
    if replies.len() > 0 {
        assert(replies[0] matches Some(r) ==> kind_of(r) != kind_of(event));
        assert(merged(event, replies[0]) == event);
        let rest = replies.skip(1);
        assert forall|i: int| 0 <= i < rest.len() implies ((#[trigger] rest[i]) matches Some(r)
            ==> kind_of(r) != kind_of(event)) by {
            assert(rest[i] == replies[i + 1]);
        }
        law_no_answer_changes_nothing(event, rest);
    }
}

/// Once a plugin has cancelled an event, no later answer counts.
pub proof fn law_cancelled_is_final(
    event: EventModel,
    before: Seq<Option<EventModel>>,
    reply: Option<EventModel>,
    after: Seq<Option<EventModel>>,
)
    requires
        is_last(event, reply),
        forall|i: int| 0 <= i < before.len() ==> !is_last(event, #[trigger] before[i]),
    ensures
        fired(event, before.push(reply) + after) == fired(event, before.push(reply)),
        is_cancelled(fired(event, before.push(reply))),
    decreases before.len(),
{
    let all = before.push(reply) + after;
    let short = before.push(reply);
    if before.len() == 0 {
        assert(all[0] == reply);
        assert(short[0] == reply);
    } else {
        assert(all[0] == before[0]);
        assert(short[0] == before[0]);
        let next = merged(event, before[0]);
        let rest = before.skip(1);
        assert(kind_of(next) == kind_of(event));
        assert forall|i: int| 0 <= i < rest.len() implies !is_last(next, #[trigger] rest[i]) by {
            assert(rest[i] == before[i + 1]);
        }
        law_cancelled_is_final(next, rest, reply, after);
        assert(all.skip(1) == rest.push(reply) + after);
        assert(short.skip(1) == rest.push(reply));
    }
}

/// One answer after the other gives what all the answers together give.
pub proof fn law_answers_add_up(
    event: EventModel,
    reply: Option<EventModel>,
    rest: Seq<Option<EventModel>>,
)
    requires
        !is_last(event, reply),
    ensures
        fired(event, seq![reply] + rest) == fired(merged(event, reply), rest),
{
    let all = seq![reply] + rest;
    assert(all[0] == reply);
    assert(all.skip(1) == rest);
}

/// What a plugin answers takes effect: of an event that it can change, what it may decide becomes
/// what it has decided.
pub proof fn law_answers_take_effect(event: EventModel, r: EventModel)
    requires
        kind_of(event) == kind_of(r),
    ensures
        r matches Event::ProxyPing(x) ==> (merged(event, Some(r)) matches Event::ProxyPing(e)
            && e.motd == x.motd && e.max_players == x.max_players && e.online_players
            == x.online_players && e.version_name == x.version_name),
        r matches Event::PlayerPreLogin(x) ==> (merged(event, Some(r)) matches Event::PlayerPreLogin(
            e,
        ) && e.cancelled == x.cancelled && e.cancel_reason == x.cancel_reason),
        r matches Event::PlayerLogin(x) ==> (merged(event, Some(r)) matches Event::PlayerLogin(e)
            && e.cancelled == x.cancelled && e.cancel_reason == x.cancel_reason),
        r matches Event::ServerConnect(x) ==> (merged(event, Some(r)) matches Event::ServerConnect(
            e,
        ) && e.target_server == x.target_server && e.cancelled == x.cancelled && e.cancel_reason
            == x.cancel_reason),
        r matches Event::PlayerChat(x) ==> (merged(event, Some(r)) matches Event::PlayerChat(e)
            && e.message == x.message && e.cancelled == x.cancelled),
        r matches Event::PlayerCommand(x) ==> (merged(event, Some(r)) matches Event::PlayerCommand(
            e,
        ) && e.command == x.command && e.cancelled == x.cancelled),
        r matches Event::PluginMessage(x) ==> (merged(event, Some(r)) matches Event::PluginMessage(
            e,
        ) && e.data == x.data && e.cancelled == x.cancelled),
        r is PlayerJoin || r is ServerConnected || r is PlayerDisconnect ==> merged(event, Some(r))
            == event,
{
}

/// An event is cancelled exactly where it can be and says so.
pub proof fn law_cancelled_says_so(e: EventModel)
    ensures
        e matches Event::PlayerPreLogin(x) ==> is_cancelled(e) == x.cancelled,
        e matches Event::PlayerLogin(x) ==> is_cancelled(e) == x.cancelled,
        e matches Event::ServerConnect(x) ==> is_cancelled(e) == x.cancelled,
        e matches Event::PlayerChat(x) ==> is_cancelled(e) == x.cancelled,
        e matches Event::PlayerCommand(x) ==> is_cancelled(e) == x.cancelled,
        e matches Event::PluginMessage(x) ==> is_cancelled(e) == x.cancelled,
        e is ProxyPing || e is PlayerJoin || e is ServerConnected || e is PlayerDisconnect
            ==> !is_cancelled(e),
{
}

/// Plugins are told one after the other, and nobody twice.
pub proof fn law_handlers_come_in_turn(f: Firing, r: Option<RegisteredEventHandler>)
    requires
        call_ensures(Firing::next_handler, (&f,), r),
    ensures
        r is Some <==> f.next < f.handlers@.len(),
        r matches Some(h) ==> h == f.handlers@[f.next as int],
{
}

/// A firing that goes on with these answers, one from each plugin in turn.
pub open spec fn told_in_turn(
    event: EventModel,
    next: nat,
    total: nat,
    replies: Seq<Option<EventModel>>,
) -> (EventModel, nat)
    decreases replies.len(),
{
    if next >= total || replies.len() == 0 {
        (event, next)
    } else {
        let (e, n) = after_reply(event, next, total, replies[0]);
        told_in_turn(e, n, total, replies.skip(1))
    }
}

/// Told to every plugin in turn, an event becomes what their answers together make of it; after
/// one that cancels it nobody else is told, and at the end nobody is left.
pub proof fn law_plugins_are_told_in_turn(
    event: EventModel,
    next: nat,
    total: nat,
    replies: Seq<Option<EventModel>>,
)
    requires
        next + replies.len() == total,
    ensures
        told_in_turn(event, next, total, replies) == (fired(event, replies), total),
        replies.len() > 0 && is_last(event, replies[0]) ==> after_reply(
            event,
            next,
            total,
            replies[0],
        ).1 == total,
        replies.len() > 0 && !is_last(event, replies[0]) ==> after_reply(
            event,
            next,
            total,
            replies[0],
        ).1 == next + 1,
    decreases replies.len(),
{
    reveal_with_fuel(told_in_turn, 2);
    if replies.len() > 0 {
        let (e, n) = after_reply(event, next, total, replies[0]);
        if !is_last(event, replies[0]) {
            law_plugins_are_told_in_turn(e, n, total, replies.skip(1));
        }
    }
}

/// An answer is the last exactly where it is about the same kind of event and cancels it.
pub proof fn law_cancelling_answers_are_last(event: EventModel, r: EventModel)
    ensures
        is_last(event, Some(r)) <==> kind_of(r) == kind_of(event) && is_cancelled(r),
        !is_last(event, None),
        is_last(event, Some(r)) ==> is_cancelled(merged(event, Some(r))),
{
}

} // verus!
