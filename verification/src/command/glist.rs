//! `/glist`.
use vstd::prelude::*;
use vstd::string::*;

use crate::codec::{signed, to_signed};
use crate::command::source::{
    allowed, answer, command_answer, command_error, refusal, Outcome, OutcomeModel,
    ProxyCommandSource, SourceModel,
};
use crate::ordering::{lemma_text_order, law_sorting, sort_texts, sorted_texts};
use crate::session::{PlayerSession, SessionModel};
use crate::table::{values_of, views};
use crate::text::{
    cat2, cat3, decimal, decimal_u64, holds_text, join, joined, owned, text_eq, texts,
};

verus! {

broadcast use vstd::seq::group_seq_axioms;

/// Command to list players grouped by server across the entire proxy.
pub struct GlistCommandExecutor;

pub const NO_GLIST_PERMISSION: &'static str = "You do not have permission to execute this command (required: vine.command.glist).";

/// The list without repetitions: each text where it first stands.
pub open spec fn once_each(s: Seq<Seq<char>>) -> Seq<Seq<char>>
    decreases s.len(),
{
    if s.len() == 0 {
        s
    } else {
        let before = once_each(s.drop_last());
        if before.contains(s.last()) {
            before
        } else {
            before.push(s.last())
        }
    }
}

pub open spec fn session_servers(sessions: Seq<SessionModel>) -> Seq<Seq<char>> {
    Seq::new(sessions.len(), |i: int| sessions[i].current_server)
}

/// The servers that are listed: all configured ones and all that players are on, in order.
pub open spec fn listed_servers(servers: Seq<Seq<char>>, sessions: Seq<SessionModel>) -> Seq<
    Seq<char>,
> {
    sorted_texts(once_each(servers + session_servers(sessions)))
}

/// The names of the players on a server.
pub open spec fn players_on(sessions: Seq<SessionModel>, server: Seq<char>) -> Seq<Seq<char>>
    decreases sessions.len(),
{
    if sessions.len() == 0 {
        Seq::empty()
    } else {
        let before = players_on(sessions.drop_last(), server);
        if sessions.last().current_server == server {
            before.push(sessions.last().username)
        } else {
            before
        }
    }
}

/// One line for a server.
pub open spec fn server_line(sessions: Seq<SessionModel>, server: Seq<char>) -> Seq<char> {
    let players = sorted_texts(players_on(sessions, server));
    if players.len() == 0 {
        "["@ + server + "] (0):"@
    } else {
        "["@ + server + "] ("@ + decimal(players.len()) + "): "@ + joined(players, ", "@)
    }
}

pub open spec fn server_lines(sessions: Seq<SessionModel>, servers: Seq<Seq<char>>) -> Seq<
    Seq<char>,
> {
    Seq::new(servers.len(), |i: int| server_line(sessions, servers[i]))
}

pub open spec fn glist_outcome(src: SourceModel) -> OutcomeModel {
    let sessions = values_of(src.sessions);
    if !allowed(src, "vine.command.glist"@) {
        refusal(NO_GLIST_PERMISSION@)
    } else {
        let lines = server_lines(sessions, listed_servers(src.servers, sessions)).push(
            "Total players online: "@ + decimal(sessions.len()),
        );
        answer(src.sender, joined(lines, "\n"@), signed(sessions.len()))
    }
}

fn distinct(v: &Vec<String>) -> (r: Vec<String>)
    ensures
        texts(r@) == once_each(texts(v@)),
{
    let ghost all = texts(v@);
    let mut r: Vec<String> = Vec::new();
    let mut i: usize = 0;
    assert(all.take(0) == Seq::<Seq<char>>::empty());
    assert(texts(r@) == Seq::<Seq<char>>::empty());
    while i < v.len()
        invariant
            i <= v@.len(),
            all == texts(v@),
            texts(r@) == once_each(all.take(i as int)),
        decreases v.len() - i,
    {
        let ghost before = texts(r@);
        assert(all.take(i + 1).drop_last() == all.take(i as int));
        assert(all.take(i + 1).last() == v@[i as int]@);
        if !holds_text(&r, v[i].as_str()) {
            r.push(v[i].clone());
            assert(texts(r@) == before.push(v@[i as int]@));
        }
        i = i + 1;
    }
    assert(all.take(all.len() as int) == all);
    r
}

fn players_of(sessions: &Vec<PlayerSession>, server: &str) -> (r: Vec<String>)
    ensures
        texts(r@) == players_on(views(sessions@), server@),
{
    let ghost all = views(sessions@);
    let mut r: Vec<String> = Vec::new();
    let mut i: usize = 0;
    assert(all.take(0) == Seq::<SessionModel>::empty());
    assert(texts(r@) == Seq::<Seq<char>>::empty());
    while i < sessions.len()
        invariant
            i <= sessions@.len(),
            all == views(sessions@),
            texts(r@) == players_on(all.take(i as int), server@),
        decreases sessions.len() - i,
    {
        let ghost before = texts(r@);
        assert(all.take(i + 1).drop_last() == all.take(i as int));
        assert(all.take(i + 1).last() == sessions@[i as int]@);
        if text_eq(sessions[i].current_server.as_str(), server) {
            r.push(sessions[i].username.clone());
            assert(texts(r@) == before.push(sessions@[i as int]@.username));
        }
        i = i + 1;
    }
    assert(all.take(all.len() as int) == all);
    r
}

fn line_for(sessions: &Vec<PlayerSession>, server: &str) -> (r: String)
    ensures
        r@ == server_line(views(sessions@), server@),
{
    let players = sort_texts(&players_of(sessions, server));
    assert(texts(players@).len() == players@.len());
    if players.len() == 0 {
        cat3("[", server, "] (0):")
    } else {
        let mut r = cat3("[", server, "] (");
        r.append(decimal_u64(players.len() as u64).as_str());
        r.append("): ");
        r.append(join(&players, ", ").as_str());
        r
    }
}

impl GlistCommandExecutor {
    pub fn execute(&self, source: &ProxyCommandSource) -> (r: Outcome)
        ensures
            r@ == glist_outcome(source@),
    {
        if !source.has_permission("vine.command.glist") {
            return command_error(owned(NO_GLIST_PERMISSION));
        }
        let sessions = source.session_manager.list_sessions();
        let ghost all = views(sessions@);
        let mut names = source.config.servers.keys();
        let ghost configured = texts(names@);
        let mut i: usize = 0;
        assert(texts(names@) == configured + session_servers(all).take(0));
        while i < sessions.len()
            invariant
                i <= sessions@.len(),
                all == views(sessions@),
                texts(names@) == configured + session_servers(all).take(i as int),
            decreases sessions.len() - i,
        {
            let ghost before = texts(names@);
            assert(session_servers(all)[i as int] == sessions@[i as int]@.current_server);
            names.push(sessions[i].current_server.clone());
            assert(texts(names@) == before.push(session_servers(all)[i as int]));
            assert(texts(names@) == configured + session_servers(all).take(i + 1));
            i = i + 1;
        }
        assert(session_servers(all).take(all.len() as int) == session_servers(all));
        let servers = sort_texts(&distinct(&names));
        let ghost listed = listed_servers(source@.servers, all);
        assert(texts(servers@) == listed);
        let mut lines: Vec<String> = Vec::new();
        let mut k: usize = 0;
        while k < servers.len()
            invariant
                k <= servers@.len(),
                all == views(sessions@),
                texts(servers@) == listed,
                lines@.len() == k,
                forall|j: int| 0 <= j < k ==> lines@[j]@ == server_line(all, listed[j]),
            decreases servers.len() - k,
        {
            assert(listed[k as int] == servers@[k as int]@);
            lines.push(line_for(&sessions, servers[k].as_str()));
            k = k + 1;
        }
        assert(texts(lines@) == server_lines(all, listed));
        let ghost head = texts(lines@);
        lines.push(cat2("Total players online: ", decimal_u64(sessions.len() as u64).as_str()));
        assert(texts(lines@) == head.push("Total players online: "@ + decimal(all.len())));
        command_answer(&source.sender, join(&lines, "\n"), to_signed(sessions.len() as u64))
    }
}

// ---------------------------------------------------------------------------
// Laws of the list
// ---------------------------------------------------------------------------

/// How many players the lines of some servers name together.
pub open spec fn named_together(sessions: Seq<SessionModel>, servers: Seq<Seq<char>>) -> nat
    decreases servers.len(),
{
    if servers.len() == 0 {
        0
    } else {
        named_together(sessions, servers.drop_last()) + players_on(
            sessions,
            servers.last(),
        ).len()
    }
}

proof fn lemma_once_each(s: Seq<Seq<char>>)
    ensures
        once_each(s).no_duplicates(),
        forall|i: int| 0 <= i < s.len() ==> once_each(s).contains(#[trigger] s[i]),
    decreases s.len(),
{
    if s.len() > 0 {
        lemma_once_each(s.drop_last());
        let before = once_each(s.drop_last());
        let r = once_each(s);
        assert forall|i: int| 0 <= i < s.len() implies r.contains(#[trigger] s[i]) by {
            if i < s.len() - 1 {
                assert(s.drop_last()[i] == s[i]);
                let j = choose|j: int| 0 <= j < before.len() && before[j] == s[i];
                assert(r[j] == s[i]);
            } else if !before.contains(s.last()) {
                assert(r[before.len() as int] == s.last());
            }
        }
    }
}

/// One more player shows up in the lines exactly once if their server is listed once.
proof fn lemma_named_step(sessions: Seq<SessionModel>, servers: Seq<Seq<char>>)
    requires
        sessions.len() > 0,
        servers.no_duplicates(),
    ensures
        named_together(sessions, servers) == named_together(sessions.drop_last(), servers) + (
        if servers.contains(sessions.last().current_server) {
            1nat
        } else {
            0
        }),
    decreases servers.len(),
{
    if servers.len() > 0 {
        let front = servers.drop_last();
        let at = sessions.last().current_server;
        lemma_named_step(sessions, front);
        if front.contains(at) {
            let j = choose|j: int| 0 <= j < front.len() && front[j] == at;
            assert(servers[j] == at);
        } else if servers.contains(at) {
            let j = choose|j: int| 0 <= j < servers.len() && servers[j] == at;
            if j < front.len() {
                assert(front[j] == at);
            }
            assert(servers.last() == at);
        } else {
            assert(servers[servers.len() - 1] != at);
        }
        if servers.last() == at {
            assert(servers[servers.len() - 1] == at);
            if front.contains(at) {
                let j = choose|j: int| 0 <= j < front.len() && front[j] == at;
                assert(servers[j] == servers[servers.len() - 1]);
            }
        }
    }
}

proof fn lemma_named_all(sessions: Seq<SessionModel>, servers: Seq<Seq<char>>)
    requires
        servers.no_duplicates(),
        forall|i: int|
            0 <= i < sessions.len() ==> servers.contains(
                (#[trigger] sessions[i]).current_server,
            ),
    ensures
        named_together(sessions, servers) == sessions.len(),
    decreases sessions.len(),
{
    if sessions.len() == 0 {
        lemma_named_none(servers);
        assert(sessions == Seq::<SessionModel>::empty());
    } else {
        lemma_named_step(sessions, servers);
        let front = sessions.drop_last();
        assert forall|i: int| 0 <= i < front.len() implies servers.contains(
            (#[trigger] front[i]).current_server,
        ) by {
            assert(front[i] == sessions[i]);
        }
        lemma_named_all(front, servers);
        assert(servers.contains(sessions[sessions.len() - 1].current_server));
    }
}

proof fn lemma_named_none(servers: Seq<Seq<char>>)
    ensures
        named_together(Seq::<SessionModel>::empty(), servers) == 0,
    decreases servers.len(),
{
    if servers.len() > 0 {
        lemma_named_none(servers.drop_last());
    }
}

proof fn lemma_sorted_same_texts(s: Seq<Seq<char>>, x: Seq<char>)
    requires
        s.no_duplicates(),
    ensures
        sorted_texts(s).no_duplicates(),
        s.contains(x) ==> sorted_texts(s).contains(x),
{
    broadcast use vstd::seq_lib::group_to_multiset_ensures;

    lemma_text_order();
    law_sorting(s, |a: Seq<char>, b: Seq<char>| crate::ordering::text_le(a, b));
    let r = sorted_texts(s);
    assert(s.to_multiset() == r.to_multiset());
    s.lemma_multiset_has_no_duplicates();
    assert forall|y: Seq<char>| r.to_multiset().contains(y) implies r.to_multiset().count(y)
        == 1 by {
        assert(s.to_multiset().contains(y));
    }
    r.lemma_multiset_has_no_duplicates_conv();
    if s.contains(x) {
        assert(s.to_multiset().count(x) > 0);
        assert(r.to_multiset().count(x) > 0);
        assert(r.contains(x));
    }
}

/// Every player on the proxy stands in exactly one line: the lines together name as many players
/// as there are.
pub proof fn law_glist_names_everybody_once(servers: Seq<Seq<char>>, sessions: Seq<SessionModel>)
    ensures
        named_together(sessions, listed_servers(servers, sessions)) == sessions.len(),
{
    let all = servers + session_servers(sessions);
    lemma_once_each(all);
    let listed = listed_servers(servers, sessions);
    lemma_sorted_same_texts(once_each(all), Seq::empty());
    assert forall|i: int| 0 <= i < sessions.len() implies listed.contains(
        (#[trigger] sessions[i]).current_server,
    ) by {
        assert(all[servers.len() + i] == sessions[i].current_server);
        lemma_sorted_same_texts(once_each(all), sessions[i].current_server);
    }
    lemma_named_all(sessions, listed);
}

/// A player stands among those on a server exactly where their session is on it.
pub proof fn law_players_are_where_they_are(
    sessions: Seq<SessionModel>,
    server: Seq<char>,
    name: Seq<char>,
)
    ensures
        players_on(sessions, server).contains(name) <==> exists|i: int|
            0 <= i < sessions.len() && (#[trigger] sessions[i]).username == name
                && sessions[i].current_server == server,
    decreases sessions.len(),
{
    if sessions.len() > 0 {
        let front = sessions.drop_last();
        law_players_are_where_they_are(front, server, name);
        let a = players_on(front, server);
        let all = players_on(sessions, server);
        let last = sessions.last();
        assert(sessions[sessions.len() - 1] == last);
        if a.contains(name) {
            let j = choose|j: int| 0 <= j < a.len() && a[j] == name;
            assert(all[j] == name);
            let i = choose|i: int|
                0 <= i < front.len() && (#[trigger] front[i]).username == name
                    && front[i].current_server == server;
            assert(sessions[i] == front[i]);
        }
        if last.username == name && last.current_server == server {
            assert(all[a.len() as int] == name);
        }
        if all.contains(name) {
            let j = choose|j: int| 0 <= j < all.len() && all[j] == name;
            if j < a.len() {
                assert(a[j] == name);
            }
        }
        if exists|i: int|
            0 <= i < sessions.len() && (#[trigger] sessions[i]).username == name
                && sessions[i].current_server == server {
            let i = choose|i: int|
                0 <= i < sessions.len() && (#[trigger] sessions[i]).username == name
                    && sessions[i].current_server == server;
            if i < front.len() {
                assert(front[i] == sessions[i]);
            }
        }
    }
}

/// Whoever may ask is told, in one message, the line of every configured server and of every
/// server that somebody is on, and how many players there are. Who may not, is refused.
pub proof fn law_glist_tells_every_line(src: SourceModel, server: Seq<char>)
    requires
        src.sessions.len() <= i32::MAX,
        src.servers.contains(server) || exists|i: int|
            0 <= i < src.sessions.len() && (#[trigger] src.sessions[i]).1.current_server == server,
    ensures
        allowed(src, "vine.command.glist"@) ==> {
            &&& crate::command::source::only_told(
                glist_outcome(src),
                src.sender,
                server_line(values_of(src.sessions), server),
            )
            &&& crate::command::source::only_told(
                glist_outcome(src),
                src.sender,
                "Total players online: "@ + decimal(src.sessions.len()),
            )
            &&& glist_outcome(src).result == Ok::<i32, Seq<char>>(src.sessions.len() as i32)
        },
        !allowed(src, "vine.command.glist"@) ==> glist_outcome(src).result is Err && glist_outcome(
            src,
        ).effects.len() == 0,
{
    let sessions = values_of(src.sessions);
    let all = src.servers + session_servers(sessions);
    lemma_once_each(all);
    let listed = listed_servers(src.servers, sessions);
    let lines = server_lines(sessions, listed).push(
        "Total players online: "@ + decimal(sessions.len()),
    );
    if src.servers.contains(server) {
        let i = choose|i: int| 0 <= i < src.servers.len() && src.servers[i] == server;
        assert(all[i] == server);
    } else {
        let i = choose|i: int|
            0 <= i < src.sessions.len() && (#[trigger] src.sessions[i]).1.current_server == server;
        assert(sessions[i] == src.sessions[i].1);
        assert(all[src.servers.len() + i] == server);
    }
    assert(all.contains(server));
    lemma_sorted_same_texts(once_each(all), server);
    assert(listed.contains(server));
    let k = choose|k: int| 0 <= k < listed.len() && listed[k] == server;
    assert(lines[k] == server_line(sessions, server));
    crate::text::law_joined_holds_each(lines, "\n"@, k);
    crate::text::law_joined_holds_each(lines, "\n"@, lines.len() - 1);
    assert(lines[lines.len() - 1] == "Total players online: "@ + decimal(src.sessions.len()));
}

/// The line of a server names it, and names every player on it.
pub proof fn law_server_line_names_its_players(sessions: Seq<SessionModel>, i: int)
    requires
        0 <= i < sessions.len(),
    ensures
        crate::text::holds_part(
            server_line(sessions, sessions[i].current_server),
            sessions[i].username,
        ),
        forall|server: Seq<char>|
            crate::text::holds_part(#[trigger] server_line(sessions, server), server),
{
    let at = sessions[i].current_server;
    let on = players_on(sessions, at);
    let players = sorted_texts(on);
    law_players_are_where_they_are(sessions, at, sessions[i].username);
    assert(on.contains(sessions[i].username));
    lemma_sorted_holds(on, sessions[i].username);
    let j = choose|j: int| 0 <= j < players.len() && players[j] == sessions[i].username;
    let list = joined(players, ", "@);
    let head = "["@ + at + "] ("@ + decimal(players.len()) + "): "@;
    let empty = Seq::<char>::empty();
    crate::text::law_joined_holds_each(players, ", "@, j);
    crate::text::lemma_part_of_part(head, list, empty, sessions[i].username);
    assert(head + list + empty == head + list);
    assert forall|server: Seq<char>|
        crate::text::holds_part(#[trigger] server_line(sessions, server), server) by {
        let ps = sorted_texts(players_on(sessions, server));
        let rest = "] ("@ + decimal(ps.len()) + "): "@ + joined(ps, ", "@);
        crate::text::lemma_holds_part("["@, server, "] (0):"@);
        crate::text::lemma_holds_part("["@, server, rest);
        assert("["@ + server + rest == "["@ + server + "] ("@ + decimal(ps.len()) + "): "@
            + joined(ps, ", "@));
    }
}

proof fn lemma_sorted_holds(s: Seq<Seq<char>>, x: Seq<char>)
    requires
        s.contains(x),
    ensures
        sorted_texts(s).contains(x),
{
    broadcast use vstd::seq_lib::group_to_multiset_ensures;

    lemma_text_order();
    law_sorting(s, |a: Seq<char>, b: Seq<char>| crate::ordering::text_le(a, b));
    assert(s.to_multiset().count(x) > 0);
    assert(sorted_texts(s).to_multiset().count(x) > 0);
}

/// Some texts in order: the same texts, each as often, one after the other.
pub open spec fn ordered(list: Seq<Seq<char>>, of: Seq<Seq<char>>) -> bool {
    &&& list.to_multiset() == of.to_multiset()
    &&& crate::ordering::in_order(
        list,
        |a: Seq<char>, b: Seq<char>| crate::ordering::text_le(a, b),
    )
}

/// A server's line is its name, how many players are on it, and their names in order with commas
/// between them.
pub proof fn law_server_line_is_in_order(sessions: Seq<SessionModel>, server: Seq<char>)
    ensures
        ({
            let here = players_on(sessions, server);
            &&& here.len() == 0 ==> server_line(sessions, server) == "["@ + server + "] (0):"@
            &&& here.len() > 0 ==> exists|list: Seq<Seq<char>>| #[trigger]
                ordered(list, here) && server_line(sessions, server) == "["@ + server + "] ("@
                    + decimal(here.len()) + "): "@ + joined(list, ", "@)
        }),
{
    let here = players_on(sessions, server);
    lemma_text_order();
    law_sorting(here, |a: Seq<char>, b: Seq<char>| crate::ordering::text_le(a, b));
    let list = sorted_texts(here);
    assert(ordered(list, here));
    lemma_multiset_len(list, here);
}

proof fn lemma_multiset_len(a: Seq<Seq<char>>, b: Seq<Seq<char>>)
    requires
        a.to_multiset() == b.to_multiset(),
    ensures
        a.len() == b.len(),
{
    broadcast use vstd::seq_lib::group_to_multiset_ensures;

    assert(a.to_multiset().len() == a.len());
    assert(b.to_multiset().len() == b.len());
}

/// The servers are listed in order, each once.
pub proof fn law_servers_are_listed_in_order(servers: Seq<Seq<char>>, sessions: Seq<SessionModel>)
    ensures
        crate::ordering::in_order(
            listed_servers(servers, sessions),
            |a: Seq<char>, b: Seq<char>| crate::ordering::text_le(a, b),
        ),
        listed_servers(servers, sessions).no_duplicates(),
{
    let all = once_each(servers + session_servers(sessions));
    lemma_once_each(servers + session_servers(sessions));
    lemma_text_order();
    law_sorting(all, |a: Seq<char>, b: Seq<char>| crate::ordering::text_le(a, b));
    lemma_sorted_same_texts(all, Seq::empty());
}

} // verus!
