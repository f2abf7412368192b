//! Which plugins are loaded, and what they have registered.
use vstd::prelude::*;
use vstd::string::*;

use crate::command::dispatcher::{CommandDispatcher, CommandEntry, Entries, PluginCommand};
use crate::config::copy_opt;
use crate::ordering::{
    in_order, is_total, law_sorting, lemma_placed_at, placed, stably_sorted,
};
use crate::plugin::api::{
    EventPriority, EventType, PlayerChatEvent, PlayerCommandEvent, PlayerDisconnectEvent,
    PlayerJoinEvent, PlayerLoginEvent, PlayerPreLoginEvent, PluginMessageEvent, ProxyPingEvent,
    ServerConnectEvent, ServerConnectedEvent,
};
use crate::plugin::events::{Event, EventModel, Firing, RegisteredEventHandler};
use crate::table::bound;
use crate::text::{eq_ignore_case, opt_text, same_ignoring_case, texts};

verus! {

broadcast use vstd::seq::group_seq_axioms;

pub type Registrations = Seq<(EventType, RegisteredEventHandler)>;

/// The handlers of one kind of event, in the order of their registration.
pub open spec fn of_kind(all: Registrations, kind: EventType) -> Seq<RegisteredEventHandler>
    decreases all.len(),
{
    if all.len() == 0 {
        Seq::empty()
    } else {
        let before = of_kind(all.drop_last(), kind);
        if all.last().0 == kind {
            before.push(all.last().1)
        } else {
            before
        }
    }
}

pub open spec fn by_priority() -> spec_fn(RegisteredEventHandler, RegisteredEventHandler) -> bool {
    |a: RegisteredEventHandler, b: RegisteredEventHandler| a.priority.rank() <= b.priority.rank()
}

/// The handlers of one kind of event in the order in which they are told: by priority, and
/// within one priority as they have registered.
pub open spec fn handlers_for(all: Registrations, kind: EventType) -> Seq<RegisteredEventHandler> {
    stably_sorted(of_kind(all, kind), by_priority())
}

/// The commands with one more for each of the names, the first name first.
pub open spec fn with_names(
    entries: Entries,
    names: Seq<Seq<char>>,
    description: Seq<char>,
    requirement: Option<Seq<char>>,
    command: PluginCommand,
) -> Entries
    decreases names.len(),
{
    if names.len() == 0 {
        entries
    } else {
        let before = with_names(entries, names.drop_last(), description, requirement, command);
        bound(
            before,
            names.last(),
            CommandEntry { name: names.last(), description, requirement, plugin: Some(command) },
        )
    }
}

/// Whether a file is a plugin, by the extension of its name.
pub fn can_load(extension: Option<&str>) -> (r: bool)
    ensures
        r == (extension matches Some(e) && same_ignoring_case(e@, "wasm"@)),
{
    match extension {
        Some(e) => eq_ignore_case(e, "wasm"),
        None => false,
    }
}

pub struct PluginManager {
    /// Where the plugins' files lie
    pub plugins_dir: String,
    pub loaded_plugins: Vec<u64>,
    pub event_handlers: Vec<(EventType, RegisteredEventHandler)>,
}

impl PluginManager {
    /// A manager of the plugins in a directory, of which none is loaded yet.
    pub fn new(plugins_dir: String) -> (r: Self)
        ensures
            r.plugins_dir == plugins_dir,
            r.loaded_plugins@ == Seq::<u64>::empty(),
            r.event_handlers@ == Seq::<(EventType, RegisteredEventHandler)>::empty(),
    {
        let loaded_plugins: Vec<u64> = Vec::new();
        let event_handlers: Vec<(EventType, RegisteredEventHandler)> = Vec::new();
        assert(loaded_plugins@ =~= Seq::empty());
        assert(event_handlers@ =~= Seq::empty());
        PluginManager { plugins_dir, loaded_plugins, event_handlers }
    }

    /// A plugin has been loaded, or has refused to be.
    pub fn on_loaded(&mut self, plugin: u64, accepted: bool)
        ensures
            final(self).loaded_plugins@ == (if accepted {
                old(self).loaded_plugins@.push(plugin)
            } else {
                old(self).loaded_plugins@
            }),
            final(self).event_handlers@ == old(self).event_handlers@,
            final(self).plugins_dir == old(self).plugins_dir,
    {
        if accepted {
            self.loaded_plugins.push(plugin);
        }
    }

    /// Hands out the plugins that are to be unloaded, in the order of their loading.
    pub fn unload_plugins(&mut self) -> (r: Vec<u64>)
        ensures
            r@ == old(self).loaded_plugins@,
            final(self).loaded_plugins@ == Seq::<u64>::empty(),
            final(self).event_handlers@ == old(self).event_handlers@,
            final(self).plugins_dir == old(self).plugins_dir,
    {
        let mut taken: Vec<u64> = Vec::new();
        std::mem::swap(&mut taken, &mut self.loaded_plugins);
        assert(self.loaded_plugins@ =~= Seq::empty());
        taken
    }

    /// All plugins have been unloaded: none is told of anything any more.
    pub fn on_unloaded(&mut self)
        ensures
            final(self).event_handlers@ == Seq::<(EventType, RegisteredEventHandler)>::empty(),
            final(self).loaded_plugins@ == old(self).loaded_plugins@,
            final(self).plugins_dir == old(self).plugins_dir,
    {
        self.event_handlers = Vec::new();
        assert(self.event_handlers@ =~= Seq::empty());
    }

    pub fn register_event_handler(
        &mut self,
        event_type: EventType,
        priority: EventPriority,
        handler_id: u32,
        plugin: u64,
    )
        ensures
            final(self).event_handlers@ == old(self).event_handlers@.push(
                (event_type, RegisteredEventHandler { handler_id, priority, plugin }),
            ),
            final(self).loaded_plugins@ == old(self).loaded_plugins@,
            final(self).plugins_dir == old(self).plugins_dir,
    {
        self.event_handlers.push(
            (event_type, RegisteredEventHandler { handler_id, priority, plugin }),
        );
    }

    /// The handlers of one kind of event, in the order in which they are told.
    pub fn handlers(&self, kind: EventType) -> (r: Vec<RegisteredEventHandler>)
        ensures
            r@ == handlers_for(self.event_handlers@, kind),
    {
        let ghost all = self.event_handlers@;
        let ghost le = by_priority();
        let mut r: Vec<RegisteredEventHandler> = Vec::new();
        let mut i: usize = 0;
        assert(all.take(0) == Seq::<(EventType, RegisteredEventHandler)>::empty());
        assert(r@ == Seq::<RegisteredEventHandler>::empty());
        while i < self.event_handlers.len()
            invariant
                i <= all.len(),
                all == self.event_handlers@,
                le == by_priority(),
                r@ == stably_sorted(of_kind(all.take(i as int), kind), le),
            decreases self.event_handlers.len() - i,
        {
            let (k, h) = self.event_handlers[i];
            proof {
                assert(all.take(i + 1).drop_last() == all.take(i as int));
                assert(all.take(i + 1).last() == (k, h));
            }
            if k == kind {
                let mut p: usize = r.len();
                while p > 0 && r[p - 1].priority.rank() > h.priority.rank()
                    invariant
                        p <= r@.len(),
                        le == by_priority(),
                        forall|j: int| p <= j < r@.len() ==> !le(#[trigger] r@[j], h),
                    decreases p,
                {
                    p = p - 1;
                }
                proof {
                    lemma_placed_at(r@, h, le, p as int);
                    let before = of_kind(all.take(i as int), kind);
                    assert(before.push(h).drop_last() == before);
                }
                r.insert(p, h);
            }
            i = i + 1;
        }
        assert(all.take(all.len() as int) == all);
        r
    }

    /// Registers a command of a plugin under its name and its aliases.
    pub fn register_command(
        &self,
        dispatcher: &mut CommandDispatcher,
        command: PluginCommand,
        name: String,
        description: String,
        aliases: Vec<String>,
        permission: Option<String>,
    )
        ensures
            final(dispatcher)@ == with_names(
                old(dispatcher)@,
                seq![name@] + texts(aliases@),
                description@,
                opt_text(permission),
                command,
            ),
    {
        let ghost start = dispatcher@;
        let ghost names = seq![name@] + texts(aliases@);
        let ghost req = opt_text(permission);
        proof {
            assert(names.take(1).drop_last() == Seq::<Seq<char>>::empty());
            assert(names.take(1).last() == name@);
            assert(with_names(start, Seq::empty(), description@, req, command) == start);
        }
        dispatcher.register(
            CommandEntry {
                name,
                description: description.clone(),
                requirement: copy_opt(&permission),
                plugin: Some(command),
            },
        );
        let mut i: usize = 0;
        while i < aliases.len()
            invariant
                i <= aliases@.len(),
                names == seq![name@] + texts(aliases@),
                req == opt_text(permission),
                dispatcher@ == with_names(start, names.take(i + 1), description@, req, command),
            decreases aliases.len() - i,
        {
            proof {
                assert(names.take(i + 2).drop_last() == names.take(i + 1));
                assert(names.take(i + 2).last() == aliases@[i as int]@);
            }
            dispatcher.register(
                CommandEntry {
                    name: aliases[i].clone(),
                    description: description.clone(),
                    requirement: copy_opt(&permission),
                    plugin: Some(command),
                },
            );
            i = i + 1;
        }
        assert(names.take(names.len() as int) == names);
    }

    fn fire(&self, kind: EventType, event: Event) -> (r: Firing)
        ensures
            r.event@ == event@,
            r.handlers@ == handlers_for(self.event_handlers@, kind),
            r.next == 0,
    {
        Firing { event, handlers: self.handlers(kind), next: 0 }
    }

    pub fn fire_proxy_ping(&self, event: ProxyPingEvent) -> (r: Firing)
        ensures
            r.event@ == EventModel::ProxyPing(event@),
            r.handlers@ == handlers_for(self.event_handlers@, EventType::ProxyPing),
            r.next == 0,
    {
        self.fire(EventType::ProxyPing, Event::ProxyPing(event))
    }

    pub fn fire_player_pre_login(&self, event: PlayerPreLoginEvent) -> (r: Firing)
        ensures
            r.event@ == EventModel::PlayerPreLogin(event@),
            r.handlers@ == handlers_for(self.event_handlers@, EventType::PlayerPreLogin),
            r.next == 0,
    {
        self.fire(EventType::PlayerPreLogin, Event::PlayerPreLogin(event))
    }

    pub fn fire_player_login(&self, event: PlayerLoginEvent) -> (r: Firing)
        ensures
            r.event@ == EventModel::PlayerLogin(event@),
            r.handlers@ == handlers_for(self.event_handlers@, EventType::PlayerLogin),
            r.next == 0,
    {
        self.fire(EventType::PlayerLogin, Event::PlayerLogin(event))
    }

    pub fn fire_player_join(&self, event: PlayerJoinEvent) -> (r: Firing)
        ensures
            r.event@ == EventModel::PlayerJoin(event@),
            r.handlers@ == handlers_for(self.event_handlers@, EventType::PlayerJoin),
            r.next == 0,
    {
        self.fire(EventType::PlayerJoin, Event::PlayerJoin(event))
    }

    pub fn fire_server_connect(&self, event: ServerConnectEvent) -> (r: Firing)
        ensures
            r.event@ == EventModel::ServerConnect(event@),
            r.handlers@ == handlers_for(self.event_handlers@, EventType::ServerConnect),
            r.next == 0,
    {
        self.fire(EventType::ServerConnect, Event::ServerConnect(event))
    }

    pub fn fire_server_connected(&self, event: ServerConnectedEvent) -> (r: Firing)
        ensures
            r.event@ == EventModel::ServerConnected(event@),
            r.handlers@ == handlers_for(self.event_handlers@, EventType::ServerConnected),
            r.next == 0,
    {
        self.fire(EventType::ServerConnected, Event::ServerConnected(event))
    }

    pub fn fire_player_disconnect(&self, event: PlayerDisconnectEvent) -> (r: Firing)
        ensures
            r.event@ == EventModel::PlayerDisconnect(event@),
            r.handlers@ == handlers_for(self.event_handlers@, EventType::PlayerDisconnect),
            r.next == 0,
    {
        self.fire(EventType::PlayerDisconnect, Event::PlayerDisconnect(event))
    }

    pub fn fire_player_chat(&self, event: PlayerChatEvent) -> (r: Firing)
        ensures
            r.event@ == EventModel::PlayerChat(event@),
            r.handlers@ == handlers_for(self.event_handlers@, EventType::PlayerChat),
            r.next == 0,
    {
        self.fire(EventType::PlayerChat, Event::PlayerChat(event))
    }

    pub fn fire_player_command(&self, event: PlayerCommandEvent) -> (r: Firing)
        ensures
            r.event@ == EventModel::PlayerCommand(event@),
            r.handlers@ == handlers_for(self.event_handlers@, EventType::PlayerCommand),
            r.next == 0,
    {
        self.fire(EventType::PlayerCommand, Event::PlayerCommand(event))
    }

    pub fn fire_plugin_message(&self, event: PluginMessageEvent) -> (r: Firing)
        ensures
            r.event@ == EventModel::PluginMessage(event@),
            r.handlers@ == handlers_for(self.event_handlers@, EventType::PluginMessage),
            r.next == 0,
    {
        self.fire(EventType::PluginMessage, Event::PluginMessage(event))
    }
}

// ---------------------------------------------------------------------------
// Laws of the manager
// ---------------------------------------------------------------------------

/// Plugins are told in the order of their priorities, each as often as it has registered.
pub proof fn law_told_by_priority(all: Registrations, kind: EventType)
    ensures
        in_order(handlers_for(all, kind), by_priority()),
        handlers_for(all, kind).to_multiset() == of_kind(all, kind).to_multiset(),
{
    assert(is_total(by_priority()));
    law_sorting(of_kind(all, kind), by_priority());
}

/// A new handler comes behind those of its own and of earlier priorities, and before the rest.
/// Other kinds of events are told to the same plugins as before.
pub proof fn law_new_handler_comes_last(
    all: Registrations,
    kind: EventType,
    h: RegisteredEventHandler,
    other: EventType,
)
    requires
        other != kind,
    ensures
        handlers_for(all.push((kind, h)), kind) == placed(
            handlers_for(all, kind),
            h,
            by_priority(),
        ),
        handlers_for(all.push((kind, h)), other) == handlers_for(all, other),
{
    let more = all.push((kind, h));
    assert(more.drop_last() == all);
    let before = of_kind(all, kind);
    assert(before.push(h).drop_last() == before);
}

/// A command is registered under each of its names.
pub proof fn law_every_name_is_registered(
    entries: Entries,
    names: Seq<Seq<char>>,
    description: Seq<char>,
    requirement: Option<Seq<char>>,
    command: PluginCommand,
    i: int,
)
    requires
        0 <= i < names.len(),
    ensures
        crate::table::lookup(
            with_names(entries, names, description, requirement, command),
            names[i],
        ) == Some(
            CommandEntry { name: names[i], description, requirement, plugin: Some(command) },
        ),
    decreases names.len(),
{
    let front = names.drop_last();
    let before = with_names(entries, front, description, requirement, command);
    let last = CommandEntry {
        name: names.last(),
        description,
        requirement,
        plugin: Some(command),
    };
    crate::table::law_bound_lookup(before, names.last(), last, names[i]);
    if names[i] != names.last() {
        assert(front[i] == names[i]);
        law_every_name_is_registered(entries, front, description, requirement, command, i);
    }
}

/// A handler is among those of a kind of event exactly where it has registered for it.
pub proof fn law_handlers_of_a_kind(all: Registrations, kind: EventType, h: RegisteredEventHandler)
    ensures
        of_kind(all, kind).contains(h) <==> all.contains((kind, h)),
    decreases all.len(),
{
    if all.len() > 0 {
        let front = all.drop_last();
        law_handlers_of_a_kind(front, kind, h);
        let a = of_kind(front, kind);
        let b = of_kind(all, kind);
        if all.contains((kind, h)) {
            let j = choose|j: int| 0 <= j < all.len() && all[j] == (kind, h);
            if j < front.len() {
                assert(front[j] == (kind, h));
            } else {
                assert(b[a.len() as int] == h);
            }
        }
        if front.contains((kind, h)) {
            let j = choose|j: int| 0 <= j < front.len() && front[j] == (kind, h);
            assert(all[j] == (kind, h));
        }
        if a.contains(h) {
            let j = choose|j: int| 0 <= j < a.len() && a[j] == h;
            assert(b[j] == h);
        }
        if b.contains(h) {
            let j = choose|j: int| 0 <= j < b.len() && b[j] == h;
            if j < a.len() {
                assert(a[j] == h);
            } else {
                assert(all[all.len() - 1] == (kind, h));
            }
        }
    }
}

/// An event that is fired begins as it is, with the first of the handlers of its own kind.
pub open spec fn begins(m: PluginManager, event: EventModel, f: Firing) -> bool {
    &&& f.event@ == event
    &&& f.next == 0
    &&& f.handlers@ == handlers_for(
        m.event_handlers@,
        crate::plugin::events::kind_of(event),
    )
}

/// A ProxyPing event is told to those who have registered for it.
pub proof fn law_proxy_ping_is_told(m: PluginManager, e: ProxyPingEvent, f: Firing)
    requires
        call_ensures(PluginManager::fire_proxy_ping, (&m, e), f),
    ensures
        begins(m, EventModel::ProxyPing(e@), f),
{
}

/// A PlayerPreLogin event is told to those who have registered for it.
pub proof fn law_player_pre_login_is_told(m: PluginManager, e: PlayerPreLoginEvent, f: Firing)
    requires
        call_ensures(PluginManager::fire_player_pre_login, (&m, e), f),
    ensures
        begins(m, EventModel::PlayerPreLogin(e@), f),
{
}

/// A PlayerLogin event is told to those who have registered for it.
pub proof fn law_player_login_is_told(m: PluginManager, e: PlayerLoginEvent, f: Firing)
    requires
        call_ensures(PluginManager::fire_player_login, (&m, e), f),
    ensures
        begins(m, EventModel::PlayerLogin(e@), f),
{
}

/// A PlayerJoin event is told to those who have registered for it.
pub proof fn law_player_join_is_told(m: PluginManager, e: PlayerJoinEvent, f: Firing)
    requires
        call_ensures(PluginManager::fire_player_join, (&m, e), f),
    ensures
        begins(m, EventModel::PlayerJoin(e@), f),
{
}

/// A ServerConnect event is told to those who have registered for it.
pub proof fn law_server_connect_is_told(m: PluginManager, e: ServerConnectEvent, f: Firing)
    requires
        call_ensures(PluginManager::fire_server_connect, (&m, e), f),
    ensures
        begins(m, EventModel::ServerConnect(e@), f),
{
}

/// A ServerConnected event is told to those who have registered for it.
pub proof fn law_server_connected_is_told(m: PluginManager, e: ServerConnectedEvent, f: Firing)
    requires
        call_ensures(PluginManager::fire_server_connected, (&m, e), f),
    ensures
        begins(m, EventModel::ServerConnected(e@), f),
{
}

/// A PlayerDisconnect event is told to those who have registered for it.
pub proof fn law_player_disconnect_is_told(m: PluginManager, e: PlayerDisconnectEvent, f: Firing)
    requires
        call_ensures(PluginManager::fire_player_disconnect, (&m, e), f),
    ensures
        begins(m, EventModel::PlayerDisconnect(e@), f),
{
}

/// A PlayerChat event is told to those who have registered for it.
pub proof fn law_player_chat_is_told(m: PluginManager, e: PlayerChatEvent, f: Firing)
    requires
        call_ensures(PluginManager::fire_player_chat, (&m, e), f),
    ensures
        begins(m, EventModel::PlayerChat(e@), f),
{
}

/// A PlayerCommand event is told to those who have registered for it.
pub proof fn law_player_command_is_told(m: PluginManager, e: PlayerCommandEvent, f: Firing)
    requires
        call_ensures(PluginManager::fire_player_command, (&m, e), f),
    ensures
        begins(m, EventModel::PlayerCommand(e@), f),
{
}

/// A PluginMessage event is told to those who have registered for it.
pub proof fn law_plugin_message_is_told(m: PluginManager, e: PluginMessageEvent, f: Firing)
    requires
        call_ensures(PluginManager::fire_plugin_message, (&m, e), f),
    ensures
        begins(m, EventModel::PluginMessage(e@), f),
{
}

/// A file is a plugin where its extension is `wasm` in any case.
pub proof fn law_plugins_are_wasm(extension: Option<&str>, r: bool)
    requires
        call_ensures(can_load, (extension,), r),
    ensures
        r <==> (extension matches Some(e) && crate::text::lower(e@) == "wasm"@),
{
    reveal_strlit("wasm");
    assert(crate::text::lower("wasm"@) =~= "wasm"@);
}

/// The earlier a priority is, the sooner its handlers are told.
pub proof fn law_priorities_are_in_order()
    ensures
        EventPriority::Lowest.rank() < EventPriority::Low.rank(),
        EventPriority::Low.rank() < EventPriority::Normal.rank(),
        EventPriority::Normal.rank() < EventPriority::High.rank(),
        EventPriority::High.rank() < EventPriority::Highest.rank(),
        EventPriority::Highest.rank() < EventPriority::Monitor.rank(),
{
}

/// A command that is registered takes no name from another one: what is entered under other names
/// stays.
pub proof fn law_other_commands_stay(
    entries: Entries,
    names: Seq<Seq<char>>,
    description: Seq<char>,
    requirement: Option<Seq<char>>,
    command: PluginCommand,
    other: Seq<char>,
)
    requires
        !names.contains(other),
    ensures
        crate::table::lookup(
            with_names(entries, names, description, requirement, command),
            other,
        ) == crate::table::lookup(entries, other),
    decreases names.len(),
{
    if names.len() > 0 {
        let front = names.drop_last();
        assert(!front.contains(other)) by {
            if front.contains(other) {
                let j = choose|j: int| 0 <= j < front.len() && front[j] == other;
                assert(names[j] == other);
            }
        }
        law_other_commands_stay(entries, front, description, requirement, command, other);
        let before = with_names(entries, front, description, requirement, command);
        let last = CommandEntry {
            name: names.last(),
            description,
            requirement,
            plugin: Some(command),
        };
        assert(names[names.len() - 1] == names.last());
        crate::table::law_bound_lookup(before, names.last(), last, other);
    }
}

} // verus!
