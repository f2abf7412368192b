//! `/server [server]`.
use vstd::prelude::*;
use vstd::string::*;

use crate::command::source::{
    allowed, answer, command_answer, command_error, first_like, refusal, reply, CommandSender,
    Effect, EffectModel, Outcome, OutcomeModel, ProxyCommandSource, SourceModel,
};
use crate::ordering::{sort_texts, sorted_texts};
use crate::session::{session_named, PlayerAction};
use crate::text::{
    begins_with, cat2, cat3, cat5, eq_ignore_case, join, joined, lower, owned, same_ignoring_case,
    starts_with, texts, to_lower,
};

verus! {

broadcast use vstd::seq::group_seq_axioms;

pub const NO_SERVER_PERMISSION: &'static str = "You do not have permission to execute this command (required: vine.command.server).";

/// The names of all configured servers in order, with commas between them.
pub open spec fn server_list(src: SourceModel) -> Seq<char> {
    joined(sorted_texts(src.servers), ", "@)
}

pub fn list_servers(source: &ProxyCommandSource) -> (r: String)
    ensures
        r@ == server_list(source@),
{
    let keys = source.config.servers.keys();
    let sorted = sort_texts(&keys);
    join(&sorted, ", ")
}

/// `/server`: where the sender is, and where they could go.
pub open spec fn server_info(src: SourceModel) -> OutcomeModel {
    if !allowed(src, "vine.command.server"@) {
        refusal(NO_SERVER_PERMISSION@)
    } else {
        match src.sender {
            CommandSender::Player { username, .. } => {
                let current = match session_named(src.sessions, username) {
                    Some(s) => s.current_server,
                    None => "unknown"@,
                };
                answer(
                    src.sender,
                    "§6[Vine] §fYou are currently connected to server '§a"@ + current
                        + "§f'.\n§6[Vine] §7Available servers: §e"@ + server_list(src),
                    1,
                )
            },
            CommandSender::Console => answer(
                src.sender,
                "Available backend servers: "@ + server_list(src),
                1,
            ),
        }
    }
}

/// `/server <name>`: the sender is connected to that server, unless they are there already.
pub open spec fn server_switch(src: SourceModel, name: Seq<char>) -> OutcomeModel {
    if !allowed(src, "vine.command.server"@) {
        refusal(NO_SERVER_PERMISSION@)
    } else {
        match src.sender {
            CommandSender::Console => refusal(
                "Console cannot switch servers. Use '/send <player> <server>' instead."@,
            ),
            CommandSender::Player { username, channel } => match first_like(src.servers, name) {
                None => refusal(
                    "Unknown server '"@ + name + "'. Available servers: ["@ + server_list(src)
                        + "]"@,
                ),
                Some(target) => {
                    let there = session_named(src.sessions, username) matches Some(s)
                        && same_ignoring_case(s.current_server, target);
                    if there {
                        refusal("You are already connected to '"@ + target + "'!"@)
                    } else {
                        OutcomeModel {
                            effects: seq![
                                reply(
                                    src.sender,
                                    "§6[Vine] §eConnecting you to '§a"@ + target + "§e'..."@,
                                ),
                                Effect::Act {
                                    channel,
                                    action: PlayerAction::Connect { server_name: target },
                                },
                            ],
                            result: Ok(1),
                        }
                    }
                },
            },
        }
    }
}

pub struct ServerCommandExecutor;

impl ServerCommandExecutor {
    pub fn execute_info(&self, source: &ProxyCommandSource) -> (r: Outcome)
        ensures
            r@ == server_info(source@),
    {
        if !source.has_permission("vine.command.server") {
            return command_error(owned(NO_SERVER_PERMISSION));
        }
        let servers = list_servers(source);
        match &source.sender {
            CommandSender::Player { username, .. } => {
                let current = match source.session_manager.get_session(username.as_str()) {
                    Some(s) => s.current_server,
                    None => owned("unknown"),
                };
                let mut text = cat3(
                    "§6[Vine] §fYou are currently connected to server '§a",
                    current.as_str(),
                    "§f'.\n§6[Vine] §7Available servers: §e",
                );
                text.append(servers.as_str());
                command_answer(&source.sender, text, 1)
            },
            CommandSender::Console => command_answer(
                &source.sender,
                cat2("Available backend servers: ", servers.as_str()),
                1,
            ),
        }
    }

    pub fn execute_switch(&self, source: &ProxyCommandSource, server_name: &str) -> (r: Outcome)
        ensures
            r@ == server_switch(source@, server_name@),
    {
        if !source.has_permission("vine.command.server") {
            return command_error(owned(NO_SERVER_PERMISSION));
        }
        match &source.sender {
            CommandSender::Console => command_error(
                owned("Console cannot switch servers. Use '/send <player> <server>' instead."),
            ),
            CommandSender::Player { username, channel } => {
                match source.server_like(server_name) {
                    None => command_error(
                        cat5(
                            "Unknown server '",
                            server_name,
                            "'. Available servers: [",
                            list_servers(source).as_str(),
                            "]",
                        ),
                    ),
                    Some(target) => {
                        match source.session_manager.get_session(username.as_str()) {
                            Some(s) => {
                                if eq_ignore_case(s.current_server.as_str(), target.as_str()) {
                                    return command_error(
                                        cat3(
                                            "You are already connected to '",
                                            target.as_str(),
                                            "'!",
                                        ),
                                    );
                                }
                            },
                            None => {},
                        }
                        let notice = cat3(
                            "§6[Vine] §eConnecting you to '§a",
                            target.as_str(),
                            "§e'...",
                        );
                        let effects = vec![
                            source.sender.send_message(notice),
                            Effect::Act {
                                channel: *channel,
                                action: PlayerAction::Connect { server_name: target },
                            },
                        ];
                        let r = Outcome { effects, result: Ok(1) };
                        assert(r@.effects == server_switch(source@, server_name@).effects);
                        r
                    },
                }
            },
        }
    }
}

/// The names among `names` that begin as typed, in any case.
pub open spec fn names_like(names: Seq<Seq<char>>, typed: Seq<char>) -> Seq<Seq<char>>
    decreases names.len(),
{
    if names.len() == 0 {
        Seq::empty()
    } else {
        let rest = names_like(names.drop_last(), typed);
        if begins_with(lower(names.last()), lower(typed)) {
            rest.push(names.last())
        } else {
            rest
        }
    }
}

pub fn select_names(names: &Vec<String>, typed: &str) -> (r: Vec<String>)
    ensures
        texts(r@) == names_like(texts(names@), typed@),
{
    let t = to_lower(typed);
    let ghost all = texts(names@);
    let mut r: Vec<String> = Vec::new();
    let mut i: usize = 0;
    assert(all.take(0) == Seq::<Seq<char>>::empty());
    assert(texts(r@) == Seq::<Seq<char>>::empty());
    while i < names.len()
        invariant
            i <= names@.len(),
            all == texts(names@),
            t@ == lower(typed@),
            texts(r@) == names_like(all.take(i as int), typed@),
        decreases names.len() - i,
    {
        let ghost before = texts(r@);
        assert(all.take(i + 1).drop_last() == all.take(i as int));
        assert(all.take(i + 1).last() == names@[i as int]@);
        if starts_with(to_lower(names[i].as_str()).as_str(), t.as_str()) {
            r.push(names[i].clone());
            assert(texts(r@) == before.push(names@[i as int]@));
        }
        i = i + 1;
    }
    assert(all.take(all.len() as int) == all);
    r
}

pub fn server_suggestions(source: &ProxyCommandSource, typed: &str) -> (r: Vec<String>)
    ensures
        texts(r@) == names_like(source@.servers, typed@),
{
    let keys = source.config.servers.keys();
    select_names(&keys, typed)
}

/// A switch goes to a configured server, and never to the one that the player is on.
pub proof fn law_switch_goes_elsewhere(src: SourceModel, name: Seq<char>)
    requires
        server_switch(src, name).result is Ok,
    ensures
        ({
            &&& first_like(src.servers, name) matches Some(target)
            &&& src.servers.contains(target)
            &&& same_ignoring_case(target, name)
            &&& src.sender matches CommandSender::Player { username, channel }
            &&& server_switch(src, name).effects.last() == (EffectModel::Act {
                channel,
                action: PlayerAction::Connect { server_name: target },
            })
            &&& (session_named(src.sessions, username) matches Some(s) ==> !same_ignoring_case(
                s.current_server,
                target,
            ))
        }),
{
    lemma_first_like(src.servers, name);
}

pub proof fn lemma_first_like(names: Seq<Seq<char>>, name: Seq<char>)
    ensures
        first_like(names, name) matches Some(n) ==> names.contains(n) && same_ignoring_case(n, name),
        first_like(names, name) is None ==> forall|i: int|
            0 <= i < names.len() ==> !same_ignoring_case(#[trigger] names[i], name),
    decreases names.len(),
{
    if names.len() > 0 {
        let t = names.skip(1);
        lemma_first_like(t, name);
        if same_ignoring_case(names[0], name) {
            assert(names.contains(names[0]));
        } else {
            if let Some(n) = first_like(t, name) {
                let j = choose|j: int| 0 <= j < t.len() && t[j] == n;
                assert(names[j + 1] == n);
            } else {
                assert forall|i: int| 0 <= i < names.len() implies !same_ignoring_case(
                    #[trigger] names[i],
                    name,
                ) by {
                    if i > 0 {
                        assert(t[i - 1] == names[i]);
                    }
                }
            }
        }
    }
}

/// Among some names, those are alike that begin as typed, in any case; all of them, and no others.
pub proof fn law_names_like(names: Seq<Seq<char>>, typed: Seq<char>)
    ensures
        forall|x: Seq<char>| #[trigger]
            names_like(names, typed).contains(x) <==> names.contains(x) && begins_with(
                lower(x),
                lower(typed),
            ),
        names_like(names, typed).len() <= names.len(),
    decreases names.len(),
{
    if names.len() > 0 {
        let front = names.drop_last();
        law_names_like(front, typed);
        let a = names_like(front, typed);
        let all = names_like(names, typed);
        assert forall|x: Seq<char>| #[trigger]
            all.contains(x) <==> names.contains(x) && begins_with(lower(x), lower(typed)) by {
            assert(names.contains(x) <==> front.contains(x) || x == names.last()) by {
                if names.contains(x) {
                    let j = choose|j: int| 0 <= j < names.len() && names[j] == x;
                    if j < names.len() - 1 {
                        assert(front[j] == x);
                    }
                }
                if front.contains(x) {
                    let j = choose|j: int| 0 <= j < front.len() && front[j] == x;
                    assert(names[j] == x);
                }
                assert(names[names.len() - 1] == names.last());
            }
            if a.contains(x) {
                let j = choose|j: int| 0 <= j < a.len() && a[j] == x;
                assert(all[j] == x);
            }
            if all.contains(x) {
                let j = choose|j: int| 0 <= j < all.len() && all[j] == x;
                if j < a.len() {
                    assert(a[j] == x);
                }
            }
            if begins_with(lower(names.last()), lower(typed)) {
                assert(all[a.len() as int] == names.last());
            }
        }
    }
}

/// A switch that is carried out orders the sender's own connection, and none else, to the
/// configured server that was meant, and tells the sender so.
pub proof fn law_switch_moves_the_sender(src: SourceModel, name: Seq<char>)
    requires
        server_switch(src, name).result is Ok,
    ensures
        ({
            let o = server_switch(src, name);
            &&& src.sender matches CommandSender::Player { username, channel }
            &&& o.effects.len() == 2
            &&& exists|server: Seq<char>| #[trigger]
                crate::command::send::means(src.servers, name, server)
                    && crate::command::send::is_order(o.effects[1], channel, server)
                    && crate::command::source::told(o.effects[0], src.sender, server)
        }),
{
    crate::command::send::lemma_means(src.servers, name);
    let server = first_like(src.servers, name)->Some_0;
    crate::text::lemma_holds_part("§6[Vine] §eConnecting you to '§a"@, server, "§e'..."@);
}

/// A switch is carried out for a player who may switch, to a configured server that they are not
/// on yet; otherwise nothing is done. The console is on no server and cannot switch.
pub proof fn law_switch_succeeds_where_it_can(src: SourceModel, name: Seq<char>)
    ensures
        server_switch(src, name).result is Ok <==> allowed(src, "vine.command.server"@) && (
        src.sender matches CommandSender::Player { username, .. } && exists|server: Seq<char>|
            #[trigger] crate::command::send::means(src.servers, name, server) && !(exists|
                s: crate::session::SessionModel,
            |
                session_named(src.sessions, username) == Some(s) && #[trigger] same_ignoring_case(
                    s.current_server,
                    server,
                ))),
        server_switch(src, name).result is Err ==> server_switch(src, name).effects.len() == 0,
{
    crate::command::send::lemma_means(src.servers, name);
    if let CommandSender::Player { username, .. } = src.sender {
        if let Some(target) = first_like(src.servers, name) {
            assert(crate::command::send::means(src.servers, name, target));
            assert forall|server: Seq<char>| #[trigger]
                crate::command::send::means(src.servers, name, server) implies server == target by {
                lemma_means_one(src.servers, name, server, target);
            }
            if let Some(s) = session_named(src.sessions, username) {
                if same_ignoring_case(s.current_server, target) {
                    assert(session_named(src.sessions, username) == Some(s));
                }
            }
        }
    }
}

proof fn lemma_means_one(servers: Seq<Seq<char>>, name: Seq<char>, a: Seq<char>, b: Seq<char>)
    requires
        crate::command::send::means(servers, name, a),
        crate::command::send::means(servers, name, b),
    ensures
        a == b,
{
    let i = choose|i: int|
        0 <= i < servers.len() && #[trigger] servers[i] == a && same_ignoring_case(a, name)
            && forall|j: int| 0 <= j < i ==> !same_ignoring_case(#[trigger] servers[j], name);
    let k = choose|k: int|
        0 <= k < servers.len() && #[trigger] servers[k] == b && same_ignoring_case(b, name)
            && forall|j: int| 0 <= j < k ==> !same_ignoring_case(#[trigger] servers[j], name);
    if i < k {
        assert(!same_ignoring_case(servers[i], name));
    } else if k < i {
        assert(!same_ignoring_case(servers[k], name));
    }
}

/// Whoever may ask is told of every configured server, and a player of the one that their session
/// is on. Nothing else happens.
pub proof fn law_server_info_tells_all(src: SourceModel, i: int)
    requires
        0 <= i < src.servers.len(),
        allowed(src, "vine.command.server"@),
    ensures
        crate::command::source::only_told(server_info(src), src.sender, src.servers[i]),
        src.sender matches CommandSender::Player { username, .. } ==> (session_named(
            src.sessions,
            username,
        ) matches Some(s) ==> crate::command::source::only_told(
            server_info(src),
            src.sender,
            s.current_server,
        )),
{
    let list = server_list(src);
    lemma_server_listed(src, i);
    match src.sender {
        CommandSender::Player { username, .. } => {
            let current = match session_named(src.sessions, username) {
                Some(s) => s.current_server,
                None => "unknown"@,
            };
            let head = "§6[Vine] §fYou are currently connected to server '§a"@;
            let mid = "§f'.\n§6[Vine] §7Available servers: §e"@;
            let empty = Seq::<char>::empty();
            crate::text::lemma_part_of_part(head + current + mid, list, empty, src.servers[i]);
            assert(head + current + mid + list + empty == head + current + mid + list);
            crate::text::lemma_holds_part(head, current, mid + list);
            assert(head + current + (mid + list) == head + current + mid + list);
        },
        CommandSender::Console => {
            let head = "Available backend servers: "@;
            let empty = Seq::<char>::empty();
            crate::text::lemma_part_of_part(head, list, empty, src.servers[i]);
            assert(head + list + empty == head + list);
        },
    }
}

proof fn lemma_server_listed(src: SourceModel, i: int)
    requires
        0 <= i < src.servers.len(),
    ensures
        crate::text::holds_part(server_list(src), src.servers[i]),
{
    broadcast use vstd::seq_lib::group_to_multiset_ensures;

    let sorted = sorted_texts(src.servers);
    crate::ordering::lemma_text_order();
    crate::ordering::law_sorting(
        src.servers,
        |a: Seq<char>, b: Seq<char>| crate::ordering::text_le(a, b),
    );
    assert(src.servers.contains(src.servers[i]));
    assert(src.servers.to_multiset().count(src.servers[i]) > 0);
    assert(sorted.contains(src.servers[i]));
    let j = choose|j: int| 0 <= j < sorted.len() && sorted[j] == src.servers[i];
    crate::text::law_joined_holds_each(sorted, ", "@, j);
}

/// The configured servers are listed in order, with commas between them.
pub proof fn law_servers_are_named_in_order(src: SourceModel)
    ensures
        exists|list: Seq<Seq<char>>| #[trigger]
            crate::command::glist::ordered(list, src.servers) && server_list(src) == joined(
                list,
                ", "@,
            ),
{
    crate::ordering::lemma_text_order();
    crate::ordering::law_sorting(
        src.servers,
        |a: Seq<char>, b: Seq<char>| crate::ordering::text_le(a, b),
    );
    assert(crate::command::glist::ordered(sorted_texts(src.servers), src.servers));
}

} // verus!
