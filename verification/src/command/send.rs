//! `/send <player|all> <server>`.
use vstd::prelude::*;
use vstd::string::*;

use crate::codec::{signed, to_signed};
use crate::command::server::{list_servers, names_like, select_names, server_list};
use crate::command::source::{
    allowed, command_error, first_like, refusal, reply, told, Effect, EffectModel, Outcome,
    OutcomeModel, ProxyCommandSource, SourceModel,
};
use crate::session::{session_named, PlayerAction, PlayerSession, SessionModel};
use crate::table::{values_of, views};
use crate::text::{
    around_last, begins_with, cat3, cat5, decimal, decimal_u64, eq_ignore_case, lower, owned,
    parse_u16, same_ignoring_case, split_at_last, starts_with, texts, to_lower, u16_of,
};

verus! {

broadcast use vstd::seq::group_seq_axioms;

/// Host and port of an address: those of a socket address where it is one, else what stands
/// before and after its last colon.
pub open spec fn host_and_port(addr: Seq<char>, socket: Option<(Seq<char>, u16)>) -> Option<
    (Seq<char>, u16),
> {
    match socket {
        Some(s) => Some(s),
        None => match around_last(addr, ':') {
            Some((host, port)) => match u16_of(port) {
                Some(p) => Some((host, p)),
                None => None,
            },
            None => None,
        },
    }
}

/// Splits a `host:port` address. `socket` holds address and port where the text is the address
/// of a socket.
pub fn parse_address(addr: &str, socket: Option<(String, u16)>) -> (r: Option<(String, u16)>)
    ensures
        (match r {
            Some((h, p)) => Some((h@, p)),
            None => None,
        }) == host_and_port(
            addr@,
            match socket {
                Some((h, p)) => Some((h@, p)),
                None => None,
            },
        ),
{
    match socket {
        Some(s) => Some(s),
        None => match split_at_last(addr, ':') {
            Some((host, port)) => match parse_u16(port.as_str()) {
                Some(p) => Some((host, p)),
                None => None,
            },
            None => None,
        },
    }
}

pub const NO_SEND_PERMISSION: &'static str = "You do not have permission to execute this command (required: vine.command.send).";

/// The order to a player's connection to go to a server.
pub open spec fn sent_to(s: SessionModel, server: Seq<char>) -> EffectModel {
    Effect::Act { channel: s.channel, action: PlayerAction::Connect { server_name: server } }
}

pub open spec fn all_sent(sessions: Seq<SessionModel>, server: Seq<char>) -> Seq<EffectModel> {
    Seq::new(sessions.len(), |i: int| sent_to(sessions[i], server))
}

pub open spec fn send_outcome(src: SourceModel, target: Seq<char>, name: Seq<char>) -> OutcomeModel {
    if !allowed(src, "vine.command.send"@) {
        refusal(NO_SEND_PERMISSION@)
    } else {
        match first_like(src.servers, name) {
            None => refusal(
                "Unknown backend server '"@ + name + "'. Available servers: ["@ + server_list(src)
                    + "]"@,
            ),
            Some(server) => if same_ignoring_case(target, "all"@) {
                let sessions = values_of(src.sessions);
                if sessions.len() == 0 {
                    refusal("No players currently online to send."@)
                } else {
                    OutcomeModel {
                        effects: all_sent(sessions, server).push(
                            reply(
                                src.sender,
                                "Sent "@ + decimal(sessions.len()) + " player(s) to '"@ + server
                                    + "'"@,
                            ),
                        ),
                        result: Ok(signed(sessions.len())),
                    }
                }
            } else {
                match session_named(src.sessions, target) {
                    None => refusal("Player '"@ + target + "' is not online."@),
                    Some(s) => OutcomeModel {
                        effects: seq![
                            sent_to(s, server),
                            reply(
                                src.sender,
                                "Sent '"@ + s.username + "' to '"@ + server + "'"@,
                            ),
                        ],
                        result: Ok(1),
                    },
                }
            },
        }
    }
}

pub struct SendCommandExecutor;

fn connect_order(session: &PlayerSession, server: &str) -> (r: Effect)
    ensures
        r@ == sent_to(session@, server@),
{
    Effect::Act {
        channel: session.channel,
        action: PlayerAction::Connect { server_name: owned(server) },
    }
}

impl SendCommandExecutor {
    pub fn execute(&self, source: &ProxyCommandSource, target: &str, server_name: &str) -> (r:
        Outcome)
        ensures
            r@ == send_outcome(source@, target@, server_name@),
    {
        if !source.has_permission("vine.command.send") {
            return command_error(owned(NO_SEND_PERMISSION));
        }
        let server = match source.server_like(server_name) {
            Some(name) => name,
            None => {
                return command_error(
                    cat5(
                        "Unknown backend server '",
                        server_name,
                        "'. Available servers: [",
                        list_servers(source).as_str(),
                        "]",
                    ),
                );
            },
        };
        if eq_ignore_case(target, "all") {
            let sessions = source.session_manager.list_sessions();
            let ghost all = values_of(source@.sessions);
            assert(views(sessions@).len() == sessions@.len());
            if sessions.len() == 0 {
                return command_error(owned("No players currently online to send."));
            }
            let mut effects: Vec<Effect> = Vec::new();
            let mut i: usize = 0;
            while i < sessions.len()
                invariant
                    i <= sessions@.len(),
                    views(sessions@) == all,
                    effects@.len() == i,
                    forall|j: int| 0 <= j < i ==> effects@[j]@ == sent_to(all[j], server@),
                decreases sessions.len() - i,
            {
                assert(all[i as int] == sessions@[i as int]@);
                effects.push(connect_order(&sessions[i], server.as_str()));
                i = i + 1;
            }
            assert(views(effects@) == all_sent(all, server@));
            let ghost orders = effects@;
            let count = decimal_u64(sessions.len() as u64);
            let text = cat5("Sent ", count.as_str(), " player(s) to '", server.as_str(), "'");
            effects.push(source.sender.send_message(text));
            assert(views(effects@) == views(orders).push(reply(source@.sender, text@)));
            Outcome { effects, result: Ok(to_signed(sessions.len() as u64)) }
        } else {
            match source.session_manager.get_session(target) {
                None => command_error(cat3("Player '", target, "' is not online.")),
                Some(session) => {
                    let order = connect_order(&session, server.as_str());
                    let text = cat5(
                        "Sent '",
                        session.username.as_str(),
                        "' to '",
                        server.as_str(),
                        "'",
                    );
                    let effects = vec![order, source.sender.send_message(text)];
                    let r = Outcome { effects, result: Ok(1) };
                    assert(r@.effects == send_outcome(source@, target@, server_name@).effects);
                    r
                },
            }
        }
    }
}

pub open spec fn usernames(sessions: Seq<SessionModel>) -> Seq<Seq<char>> {
    Seq::new(sessions.len(), |i: int| sessions[i].username)
}

/// Whom `/send` offers to send: everybody, and each player whose name begins as typed.
pub open spec fn target_offers(src: SourceModel, typed: Seq<char>) -> Seq<Seq<char>> {
    let players = names_like(usernames(values_of(src.sessions)), typed);
    if begins_with("all"@, lower(typed)) {
        seq!["all"@] + players
    } else {
        players
    }
}

pub fn target_suggestions(source: &ProxyCommandSource, typed: &str) -> (r: Vec<String>)
    ensures
        texts(r@) == target_offers(source@, typed@),
{
    let sessions = source.session_manager.list_sessions();
    let ghost all = values_of(source@.sessions);
    let mut names: Vec<String> = Vec::new();
    let mut i: usize = 0;
    while i < sessions.len()
        invariant
            i <= sessions@.len(),
            views(sessions@) == all,
            names@.len() == i,
            forall|j: int| 0 <= j < i ==> names@[j]@ == all[j].username,
        decreases sessions.len() - i,
    {
        assert(all[i as int] == sessions@[i as int]@);
        names.push(sessions[i].username.clone());
        i = i + 1;
    }
    assert(all.len() == sessions@.len());
    assert(texts(names@) == usernames(all));
    let players = select_names(&names, typed);
    if starts_with("all", to_lower(typed).as_str()) {
        let mut r: Vec<String> = Vec::new();
        r.push(owned("all"));
        assert(texts(r@) == seq!["all"@]);
        crate::text::append_texts(&mut r, &players);
        r
    } else {
        players
    }
}

/// Sending everybody gives every player on the proxy one order, to the same configured server.
pub proof fn law_send_all_reaches_everybody(
    src: SourceModel,
    target: Seq<char>,
    name: Seq<char>,
    i: int,
)
    requires
        same_ignoring_case(target, "all"@),
        send_outcome(src, target, name).result is Ok,
        0 <= i < src.sessions.len(),
    ensures
        first_like(src.servers, name) matches Some(server) && send_outcome(
            src,
            target,
            name,
        ).effects[i] == sent_to(src.sessions[i].1, server),
        send_outcome(src, target, name).effects.len() == src.sessions.len() + 1,
{
}

/// An order to a connection to go to a server.
pub open spec fn is_order(e: EffectModel, channel: u64, server: Seq<char>) -> bool {
    e matches Effect::Act { channel: c, action: PlayerAction::Connect { server_name } } && c
        == channel && server_name == server
}

/// The server that is meant by a name: a configured one that is called so in any case, and the
/// first such one.
pub open spec fn means(servers: Seq<Seq<char>>, name: Seq<char>, server: Seq<char>) -> bool {
    exists|i: int|
        0 <= i < servers.len() && #[trigger] servers[i] == server && same_ignoring_case(
            server,
            name,
        ) && forall|j: int| 0 <= j < i ==> !same_ignoring_case(#[trigger] servers[j], name)
}

pub proof fn lemma_means(servers: Seq<Seq<char>>, name: Seq<char>)
    ensures
        first_like(servers, name) matches Some(s) ==> means(servers, name, s),
        first_like(servers, name) is None ==> forall|s: Seq<char>| !means(servers, name, s),
    decreases servers.len(),
{
    if servers.len() > 0 {
        let t = servers.skip(1);
        lemma_means(t, name);
        crate::command::server::lemma_first_like(servers, name);
        if same_ignoring_case(servers[0], name) {
            assert(servers[0] == servers[0]);
        } else if let Some(s) = first_like(t, name) {
            let i = choose|i: int|
                0 <= i < t.len() && #[trigger] t[i] == s && same_ignoring_case(s, name) && forall|
                    j: int,
                |
                    0 <= j < i ==> !same_ignoring_case(#[trigger] t[j], name);
            assert(servers[i + 1] == s);
            assert forall|j: int| 0 <= j < i + 1 implies !same_ignoring_case(
                #[trigger] servers[j],
                name,
            ) by {
                if j > 0 {
                    assert(t[j - 1] == servers[j]);
                }
            }
        }
    }
}

/// Sending one player moves that player and nobody else, whoever has asked: the session of that
/// name exists, the one order there is goes to its own connection and names the configured server
/// that was meant, and the sender is told who was sent where.
pub proof fn law_send_moves_its_target(src: SourceModel, target: Seq<char>, name: Seq<char>)
    requires
        !same_ignoring_case(target, "all"@),
        send_outcome(src, target, name).result is Ok,
    ensures
        ({
            let o = send_outcome(src, target, name);
            &&& exists|s: SessionModel, server: Seq<char>|
                #![trigger src.sessions.contains((lower(target), s)), means(src.servers, name, server)]
                src.sessions.contains((lower(target), s)) && means(src.servers, name, server)
                    && is_order(o.effects[0], s.channel, server) && told(
                    o.effects[1],
                    src.sender,
                    s.username,
                ) && told(o.effects[1], src.sender, server)
            &&& o.effects.len() == 2
            &&& o.result == Ok::<i32, Seq<char>>(1)
        }),
{
    lemma_means(src.servers, name);
    crate::table::lemma_lookup_some(src.sessions, lower(target));
    let s = session_named(src.sessions, target)->Some_0;
    let server = first_like(src.servers, name)->Some_0;
    assert(src.sessions.contains((lower(target), s)));
    let head = "Sent '"@;
    let mid = "' to '"@;
    let tail = "'"@;
    assert(head + s.username + (mid + server + tail) == head + s.username + mid + server + tail);
    crate::text::lemma_holds_part(head, s.username, mid + server + tail);
    crate::text::lemma_holds_part(head + s.username + mid, server, tail);
}

/// Sending all gives each connection on the proxy exactly one order, to the configured server that
/// was meant, and the sender is told how many there were.
pub proof fn law_send_all_moves_everybody(src: SourceModel, target: Seq<char>, name: Seq<char>)
    requires
        same_ignoring_case(target, "all"@),
        send_outcome(src, target, name).result is Ok,
    ensures
        ({
            let o = send_outcome(src, target, name);
            let n = src.sessions.len() as int;
            &&& o.effects.len() == n + 1
            &&& exists|server: Seq<char>| #[trigger]
                means(src.servers, name, server) && (forall|i: int|
                    0 <= i < n ==> is_order(
                        #[trigger] o.effects[i],
                        src.sessions[i].1.channel,
                        server,
                    )) && told(o.effects[n], src.sender, server)
            &&& told(o.effects[n], src.sender, decimal(src.sessions.len()))
            &&& n <= i32::MAX ==> o.result == Ok::<i32, Seq<char>>(n as i32)
        }),
{
    lemma_means(src.servers, name);
    let server = first_like(src.servers, name)->Some_0;
    let o = send_outcome(src, target, name);
    let count = decimal(src.sessions.len());
    let all = values_of(src.sessions);
    assert(all.len() == src.sessions.len());
    let head = "Sent "@;
    let mid = " player(s) to '"@;
    let tail = "'"@;
    assert(head + count + (mid + server + tail) == head + count + mid + server + tail);
    crate::text::lemma_holds_part(head, count, mid + server + tail);
    crate::text::lemma_holds_part(head + count + mid, server, tail);
    assert forall|i: int| 0 <= i < src.sessions.len() implies is_order(
        #[trigger] o.effects[i],
        src.sessions[i].1.channel,
        server,
    ) by {
        assert(all[i] == src.sessions[i].1);
    }
}

/// Sending succeeds for whoever may send, to a configured server, if there is somebody to send;
/// otherwise nothing is done.
pub proof fn law_send_succeeds_where_it_can(src: SourceModel, target: Seq<char>, name: Seq<char>)
    ensures
        ({
            let o = send_outcome(src, target, name);
            let there = if same_ignoring_case(target, "all"@) {
                src.sessions.len() > 0
            } else {
                crate::table::keys_of(src.sessions).contains(lower(target))
            };
            &&& o.result is Ok <==> allowed(src, "vine.command.send"@) && (exists|server: Seq<char>|
                means(src.servers, name, server)) && there
            &&& o.result is Err ==> o.effects.len() == 0
        }),
{
    lemma_means(src.servers, name);
    crate::table::lemma_lookup_some(src.sessions, lower(target));
    assert(values_of(src.sessions).len() == src.sessions.len());
}

/// An address is taken apart at its last colon, where the port behind it is a number; the address
/// of a socket is taken as it is.
pub proof fn law_address_is_host_and_port(addr: Seq<char>, socket: Option<(Seq<char>, u16)>)
    ensures
        socket is Some ==> host_and_port(addr, socket) == socket,
        socket is None ==> (host_and_port(addr, socket) matches Some((host, port)) ==> exists|
            text: Seq<char>,
        |
            addr == host + seq![':'] + text && !text.contains(':') && #[trigger] u16_of(text)
                == Some(port)),
        socket is None && host_and_port(addr, socket) is None && addr.contains(':') ==> u16_of(
            around_last(addr, ':')->Some_0.1,
        ) is None,
{
    crate::text::law_around_last_makes_the_text(addr, ':');
}

/// Offered are the online players whose names begin as typed, in any case, and `all` where that
/// begins so.
pub proof fn law_targets_that_are_offered(src: SourceModel, typed: Seq<char>, i: int)
    requires
        0 <= i < src.sessions.len(),
    ensures
        begins_with(lower(src.sessions[i].1.username), lower(typed)) ==> target_offers(
            src,
            typed,
        ).contains(src.sessions[i].1.username),
        forall|x: Seq<char>|
            target_offers(src, typed).contains(x) ==> (x == "all"@ && begins_with(
                "all"@,
                lower(typed),
            )) || begins_with(#[trigger] lower(x), lower(typed)),
        begins_with("all"@, lower(typed)) ==> target_offers(src, typed)[0] == "all"@,
{
    let names = usernames(values_of(src.sessions));
    let players = names_like(names, typed);
    let offers = target_offers(src, typed);
    crate::command::server::law_names_like(names, typed);
    assert(names[i] == src.sessions[i].1.username);
    if begins_with(lower(names[i]), lower(typed)) {
        assert(names.contains(names[i]));
        assert(players.contains(names[i]));
        let j = choose|j: int| 0 <= j < players.len() && players[j] == names[i];
        if begins_with("all"@, lower(typed)) {
            assert(offers[j + 1] == names[i]);
        } else {
            assert(offers[j] == names[i]);
        }
    }
    assert forall|x: Seq<char>| offers.contains(x) implies (x == "all"@ && begins_with(
        "all"@,
        lower(typed),
    )) || begins_with(#[trigger] lower(x), lower(typed)) by {
        let j = choose|j: int| 0 <= j < offers.len() && offers[j] == x;
        if begins_with("all"@, lower(typed)) && j > 0 {
            assert(players[j - 1] == x);
            assert(players.contains(x));
        } else if !begins_with("all"@, lower(typed)) {
            assert(players.contains(x));
        }
    }
}

} // verus!
