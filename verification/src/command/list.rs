//! `/list`.
use vstd::prelude::*;
use vstd::string::*;

use crate::codec::{signed, to_signed};
use crate::command::source::{answer, command_answer, Outcome, OutcomeModel, ProxyCommandSource};
use crate::command::source::SourceModel;
use crate::session::SessionModel;
use crate::table::{values_of, views};
use crate::text::{cat4, decimal, decimal_u64, join, joined, owned, texts};

verus! {

broadcast use vstd::seq::group_seq_axioms;

/// List command displaying online players.
pub struct ListCommandExecutor;

/// Each player with their server.
pub open spec fn players_info(sessions: Seq<SessionModel>) -> Seq<Seq<char>> {
    Seq::new(
        sessions.len(),
        |i: int| sessions[i].username + " ("@ + sessions[i].current_server + ")"@,
    )
}

pub open spec fn list_outcome(src: SourceModel) -> OutcomeModel {
    let sessions = values_of(src.sessions);
    if sessions.len() == 0 {
        answer(src.sender, "There are 0 players online."@, 0)
    } else {
        answer(
            src.sender,
            "Online players ("@ + decimal(sessions.len()) + "): "@ + joined(
                players_info(sessions),
                ", "@,
            ),
            signed(sessions.len()),
        )
    }
}

impl ListCommandExecutor {
    pub fn execute(&self, source: &ProxyCommandSource) -> (r: Outcome)
        ensures
            r@ == list_outcome(source@),
    {
        let sessions = source.session_manager.list_sessions();
        let ghost all = values_of(source@.sessions);
        assert(sessions@.len() == views(sessions@).len());
        if sessions.len() == 0 {
            return command_answer(&source.sender, owned("There are 0 players online."), 0);
        }
        let mut infos: Vec<String> = Vec::new();
        let mut i: usize = 0;
        while i < sessions.len()
            invariant
                i <= sessions@.len(),
                views(sessions@) == all,
                infos@.len() == i,
                forall|j: int| 0 <= j < i ==> infos@[j]@ == players_info(all)[j],
            decreases sessions.len() - i,
        {
            assert(all[i as int] == sessions@[i as int]@);
            infos.push(
                cat4(
                    sessions[i].username.as_str(),
                    " (",
                    sessions[i].current_server.as_str(),
                    ")",
                ),
            );
            i = i + 1;
        }
        assert(texts(infos@) == players_info(all));
        let count = decimal_u64(infos.len() as u64);
        let text = cat4(
            "Online players (",
            count.as_str(),
            "): ",
            join(&infos, ", ").as_str(),
        );
        command_answer(&source.sender, text, to_signed(infos.len() as u64))
    }
}

/// Every player on the proxy is listed with their server, with their number before them. Nothing
/// else happens.
pub proof fn law_list_names_everybody(src: SourceModel, i: int)
    requires
        0 <= i < src.sessions.len() <= i32::MAX,
    ensures
        crate::command::source::only_told(
            list_outcome(src),
            src.sender,
            src.sessions[i].1.username + " ("@ + src.sessions[i].1.current_server + ")"@,
        ),
        crate::command::source::only_told(
            list_outcome(src),
            src.sender,
            decimal(src.sessions.len()),
        ),
        list_outcome(src).result == Ok::<i32, Seq<char>>(src.sessions.len() as i32),
{
    let sessions = values_of(src.sessions);
    let infos = players_info(sessions);
    let head = "Online players ("@;
    let count = decimal(src.sessions.len());
    let mid = "): "@;
    let empty = Seq::<char>::empty();
    assert(sessions[i] == src.sessions[i].1);
    crate::text::law_joined_holds_each(infos, ", "@, i);
    crate::text::lemma_part_of_part(head + count + mid, joined(infos, ", "@), empty, infos[i]);
    assert(head + count + mid + joined(infos, ", "@) + empty == head + count + mid + joined(
        infos,
        ", "@,
    ));
    crate::text::lemma_holds_part(head, count, mid + joined(infos, ", "@));
    assert(head + count + (mid + joined(infos, ", "@)) == head + count + mid + joined(
        infos,
        ", "@,
    ));
}

/// With nobody on the proxy, the answer is zero.
pub proof fn law_list_of_nobody(src: SourceModel)
    requires
        src.sessions.len() == 0,
    ensures
        crate::command::source::only_told(list_outcome(src), src.sender, Seq::empty()),
        list_outcome(src).result == Ok::<i32, Seq<char>>(0),
{
    let t = "There are 0 players online."@;
    let empty = Seq::<char>::empty();
    crate::text::lemma_holds_part(t, empty, empty);
    assert(t + empty == t);
}

} // verus!
